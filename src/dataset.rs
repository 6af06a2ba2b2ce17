//! Where a dataset's files lie, and assembling a dataset from its document.
use crate::error::LoadError;
use crate::json::JsonValue;
use crate::schema::Record;
use crate::types::{DataSet, Instances};
use vstd::prelude::*;
use vstd::string::{StrSliceExecFns, StringExecFns};

verus! {

/// `part` joined onto the path `base`: an absolute `part` replaces `base`; otherwise
/// a separator is put between them unless `base` is empty or already ends in one.
pub open spec fn joined(base: Seq<char>, part: Seq<char>) -> Seq<char> {
    if part.len() > 0 && part[0] == '/' {
        part
    } else if base.len() == 0 || base.last() == '/' {
        base + part
    } else {
        base + seq!['/'] + part
    }
}

/// The directory of the images of split `name` under `dir`.
pub open spec fn image_dir_of(dir: Seq<char>, name: Seq<char>) -> Seq<char> {
    joined(dir, name)
}

/// The annotation file of split `name` under `dir`: `annotations/instances_<name>.json`.
pub open spec fn instances_file_of(dir: Seq<char>, name: Seq<char>) -> Seq<char> {
    joined(joined(dir, "annotations"@), "instances_"@ + name + ".json"@)
}

/// Joins `part` onto the path `base`.
pub fn join_path(base: &str, part: &str) -> (r: String)
    ensures
        r@ == joined(base@, part@),
{
    proof {
        reveal_strlit("/");
    }
    if part.unicode_len() > 0 && part.get_char(0) == '/' {
        return part.to_owned();
    }
    let n = base.unicode_len();
    let mut out = base.to_owned();
    if n > 0 && base.get_char(n - 1) != '/' {
        out.append("/");
    }
    out.append(part);
    out
}

/// The image directory and the annotation file of split `name` under `dir`.
pub fn dataset_paths(dir: &str, name: &str) -> (r: (String, String))
    ensures
        r.0@ == image_dir_of(dir@, name@),
        r.1@ == instances_file_of(dir@, name@),
{
    let image_dir = join_path(dir, name);
    let annotation_dir = join_path(dir, "annotations");
    let mut file_name = "instances_".to_owned();
    file_name.append(name);
    file_name.append(".json");
    let instances_file = join_path(annotation_dir.as_str(), file_name.as_str());
    (image_dir, instances_file)
}

impl DataSet {
    /// The dataset of split `name` under `dir`, from the structured data of its
    /// annotation file. The image directory is only named, never looked at.
    pub fn load(dir: &str, name: &str, document: &JsonValue) -> (r: Result<DataSet, LoadError>)
        ensures
            r is Ok <==> Instances::problem(*document) is None,
            r matches Ok(d) ==> {
                &&& d.image_dir@ == image_dir_of(dir@, name@)
                &&& d.instances_file@ == instances_file_of(dir@, name@)
                &&& Instances::matches(*document, d.instances)
            },
            r matches Err(e) ==> e matches LoadError::Schema(s) && Instances::problem(*document) == Some(
                (s.field@, s.problem),
            ),
    {
        let (image_dir, instances_file) = dataset_paths(dir, name);
        match Instances::decode(document) {
            Ok(instances) => Ok(DataSet { instances, image_dir, instances_file }),
            Err(e) => Err(LoadError::Schema(e)),
        }
    }
}

} // verus!
