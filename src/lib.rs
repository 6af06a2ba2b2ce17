//! Typed records of an object-detection annotation document, the codecs of
//! their fields, and the resolution of a dataset's paths.
pub mod json;
pub mod text;
pub mod values;
pub mod error;
pub mod utils;
pub mod types;
pub mod schema;
pub mod dataset;
pub mod listing;

pub use dataset::dataset_paths;
pub use error::{FieldProblem, LoadError, SchemaError};
pub use json::{JsonNumber, JsonValue};
pub use listing::{load, load_from_list_shape, ImageMeta, ListError};
pub use types::{Annotation, Category, DataSet, Image, Info, Instances, License, Segmentation};
pub use values::{Date, DateTime, Real, Url};
