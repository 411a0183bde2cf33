//! Raster images as resources of a document.

use vstd::prelude::*;
use std::rc::Rc;
use crate::error::Error;
use crate::graph::{graph_add, nth_id, GraphView, ObjectGraph};
use crate::graphics::CurTransMat;
use crate::object::{
    array, bytes_clone, name, name_value, put, Dictionary, Entries, Object, ObjectId, Stream,
    Value,
};
use crate::pdf_resources::{
    resource_name, resource_name_bytes, Embeddable, Registered, RegisteredXObject,
};
use crate::scale::Real;

verus! {

/// The colour model of the pixels of an image.
#[derive(Debug, Copy, Clone, PartialEq, Eq, Structural)]
pub enum ColorSpace {
    Rgb,
    Rgba,
    Palette,
    Cmyk,
    Greyscale,
    GreyscaleAlpha,
}

/// How many bits one colour component of a pixel has.
#[derive(Debug, Copy, Clone, PartialEq, Eq, Structural)]
pub enum ColorBits {
    Bit1,
    Bit8,
    Bit16,
}

impl ColorSpace {
    /// The name of the colour space.
    pub open spec fn spec_name(self) -> &'static str {
        match self {
            ColorSpace::Rgb => "DeviceRGB",
            ColorSpace::Rgba => "DeviceN",
            ColorSpace::Palette => "Indexed",
            ColorSpace::Cmyk => "DeviceCMYK",
            ColorSpace::Greyscale => "DeviceGray",
            ColorSpace::GreyscaleAlpha => "DeviceN",
        }
    }

    /// The name of the colour space.
    pub fn name(self) -> (n: &'static str)
        ensures
            n == self.spec_name(),
    {
        match self {
            ColorSpace::Rgb => "DeviceRGB",
            ColorSpace::Rgba => "DeviceN",
            ColorSpace::Palette => "Indexed",
            ColorSpace::Cmyk => "DeviceCMYK",
            ColorSpace::Greyscale => "DeviceGray",
            ColorSpace::GreyscaleAlpha => "DeviceN",
        }
    }
}

impl ColorBits {
    /// The number of bits.
    pub open spec fn spec_bits(self) -> i64 {
        match self {
            ColorBits::Bit1 => 1,
            ColorBits::Bit8 => 8,
            ColorBits::Bit16 => 16,
        }
    }

    /// The number of bits.
    pub fn bits(self) -> (n: i64)
        ensures
            n == self.spec_bits(),
    {
        match self {
            ColorBits::Bit1 => 1,
            ColorBits::Bit8 => 8,
            ColorBits::Bit16 => 16,
        }
    }
}

/// The pixels of an image, and how to read them.
#[derive(Debug, Clone, PartialEq)]
pub struct ImageXObject {
    /// The width in pixels.
    pub width: usize,
    /// The height in pixels.
    pub height: usize,
    pub color_space: ColorSpace,
    pub bits_per_component: ColorBits,
    /// Whether a viewer smooths the image when it is scaled.
    pub interpolate: bool,
    pub image_data: Vec<u8>,
    /// The box that the image is clipped to; the whole image if none is
    /// given.
    pub clipping_bbox: Option<CurTransMat>,
}

/// The mathematical value of an [`ImageXObject`].
pub struct ImageValue {
    pub width: usize,
    pub height: usize,
    pub color_space: ColorSpace,
    pub bits_per_component: ColorBits,
    pub interpolate: bool,
    pub image_data: Seq<u8>,
    pub clipping_bbox: Option<CurTransMat>,
}

impl View for ImageXObject {
    type V = ImageValue;

    open spec fn view(&self) -> ImageValue {
        ImageValue {
            width: self.width,
            height: self.height,
            color_space: self.color_space,
            bits_per_component: self.bits_per_component,
            interpolate: self.interpolate,
            image_data: self.image_data@,
            clipping_bbox: self.clipping_bbox,
        }
    }
}

impl ImageValue {
    /// The six numbers of the box of the image.
    pub open spec fn bbox_values(self) -> Seq<Value> {
        let parts = match self.clipping_bbox {
            Some(m) => m.spec_parts(),
            None => CurTransMat::Identity.spec_parts(),
        };
        Seq::new(parts.len(), |i: int| Value::Real(parts[i]))
    }

    /// The dictionary of the stream that holds the image.
    pub open spec fn stream_entries(self) -> Entries {
        let e0 = put(Entries::empty(), "Type", name_value("XObject"));
        let e1 = put(e0, "Subtype", name_value("Image"));
        let e2 = put(e1, "Width", Value::Integer(self.width as i64));
        let e3 = put(e2, "Height", Value::Integer(self.height as i64));
        let e4 = put(e3, "Interpolate", Value::Boolean(self.interpolate));
        let e5 = put(e4, "BitsPerComponent", Value::Integer(self.bits_per_component.spec_bits()));
        let e6 = put(e5, "ColorSpace", name_value(self.color_space.spec_name()));
        put(e6, "BBox", Value::Array(self.bbox_values()))
    }

    /// The stream that holds the image.
    pub open spec fn stream_value(self) -> Value {
        Value::Stream(self.stream_entries(), self.image_data, true)
    }

    /// The graph after the image is embedded, and the outcome: without a
    /// spare identifier the graph stays as it is and the outcome is an
    /// error.
    pub open spec fn embedded(self, g: GraphView) -> (GraphView, Result<ObjectId, Error>) {
        if g.max_id == u32::MAX {
            (g, Err(Error::ObjectLimit))
        } else {
            (graph_add(g, self.stream_value()), Ok(nth_id(g, 1)))
        }
    }
}

impl ImageXObject {
    /// The stream that holds the image.
    pub fn to_stream(&self) -> (o: Object)
        ensures
            o@ == self@.stream_value(),
    {
        let matrix = match self.clipping_bbox {
            Some(m) => m,
            None => CurTransMat::Identity,
        };
        let operation = matrix.to_operation();
        let bbox = array(operation.operands);
        assert(bbox@->Array_0 =~= self@.bbox_values());
        let mut dict = Dictionary::new();
        dict.put("Type", name("XObject"));
        dict.put("Subtype", name("Image"));
        #[verifier::truncate]
        let width = self.width as i64;
        #[verifier::truncate]
        let height = self.height as i64;
        dict.put("Width", Object::Integer(width));
        dict.put("Height", Object::Integer(height));
        dict.put("Interpolate", Object::Boolean(self.interpolate));
        dict.put("BitsPerComponent", Object::Integer(self.bits_per_component.bits()));
        dict.put("ColorSpace", name(self.color_space.name()));
        dict.put("BBox", bbox);
        Object::Stream(
            Stream {
                dict,
                content: bytes_clone(self.image_data.as_slice()),
                allows_compression: true,
            },
        )
    }
}

impl Embeddable for ImageXObject {
    const KEY: &'static str = "XObject";

    fn embed(&self, doc: &mut ObjectGraph) -> (r: Result<ObjectId, Error>)
        ensures
            (final(doc)@, r) == self@.embedded(old(doc)@),
    {
        if doc.spare_ids() < 1 {
            return Err(Error::ObjectLimit);
        }
        Ok(doc.add_object(self.to_stream()))
    }
}

/// An image.
#[derive(Debug, Clone, PartialEq)]
pub struct Image {
    /// The pixels of the image.
    pub image: ImageXObject,
}

impl Image {
    /// The image of the given pixels.
    pub fn from_xobject(image: ImageXObject) -> (r: Image)
        ensures
            r.image == image,
    {
        Image { image }
    }
}

impl Embeddable for Image {
    const KEY: &'static str = "XObject";

    fn embed(&self, doc: &mut ObjectGraph) -> (r: Result<ObjectId, Error>)
        ensures
            (final(doc)@, r) == self.image@.embedded(old(doc)@),
    {
        self.image.embed(doc)
    }
}

impl RegisteredXObject for Registered<Image> {
    fn xobject_name(&self) -> (name: Vec<u8>)
        ensures
            name@ == resource_name(self.name_index as nat),
    {
        resource_name_bytes(self.name_index)
    }
}

impl RegisteredXObject for Registered<&Image> {
    fn xobject_name(&self) -> (name: Vec<u8>)
        ensures
            name@ == resource_name(self.name_index as nat),
    {
        resource_name_bytes(self.name_index)
    }
}

impl RegisteredXObject for Registered<Rc<Image>> {
    fn xobject_name(&self) -> (name: Vec<u8>)
        ensures
            name@ == resource_name(self.name_index as nat),
    {
        resource_name_bytes(self.name_index)
    }
}

} // verus!
