//! The records of an annotation document.
use crate::values::{Date, DateTime, Real, Url};
use vstd::prelude::*;

verus! {

/// A loaded dataset: its annotation document and the two paths it was resolved to.
#[derive(Clone, Debug, PartialEq, Eq, Hash)]
pub struct DataSet {
    pub instances: Instances,
    pub image_dir: String,
    pub instances_file: String,
}

/// An annotation document; each list keeps the order of the document.
#[derive(Clone, Debug, PartialEq, Eq, Hash)]
pub struct Instances {
    pub annotations: Vec<Annotation>,
    pub categories: Vec<Category>,
    pub images: Vec<Image>,
    pub info: Info,
    pub licenses: Vec<License>,
}

/// One labelled region of one image.
#[derive(Clone, Debug, PartialEq, Eq, Hash)]
pub struct Annotation {
    pub area: Real,
    /// x, y, width and height.
    pub bbox: [Real; 4],
    pub category_id: usize,
    pub id: usize,
    pub image_id: usize,
    pub iscrowd: bool,
    pub segmentation: Segmentation,
}

#[derive(Clone, Debug, PartialEq, Eq, Hash)]
pub struct Category {
    pub id: usize,
    pub name: String,
    pub supercategory: String,
}

/// The region of an annotation.
#[derive(Clone, Debug, PartialEq, Eq, Hash)]
pub enum Segmentation {
    /// A run-length encoded mask of `size` = [height, width].
    Verbose { counts: Vec<usize>, size: [usize; 2] },
    /// Polygons, each a list of coordinates.
    Simple(Vec<Vec<Real>>),
}

#[derive(Clone, Debug, PartialEq, Eq, Hash)]
pub struct Image {
    pub id: usize,
    pub license: usize,
    pub height: usize,
    pub width: usize,
    pub date_captured: DateTime,
    pub file_name: String,
    pub coco_url: Url,
    pub flickr_url: Url,
}

#[derive(Clone, Debug, PartialEq, Eq, Hash)]
pub struct Info {
    pub contributor: String,
    pub date_created: Date,
    pub description: String,
    pub url: Url,
    pub version: String,
    pub year: usize,
}

#[derive(Clone, Debug, PartialEq, Eq, Hash)]
pub struct License {
    pub id: usize,
    pub name: String,
    pub url: Url,
}

} // verus!
