use coco::dataset::dataset_paths;
use coco::listing::{load, load_from_list_shape, parse_shape_line, split_files, ImageMeta, ListError};
use coco::schema::{decode_segmentation, Record};
use coco::utils::{serde_date_captured, serde_date_created, serde_iscrowd, serde_url};
use coco::{
    Annotation, Category, DataSet, Date, DateTime, FieldProblem, Image, Instances, JsonNumber,
    JsonValue, License, LoadError, Real, Segmentation, Url,
};

fn uint(n: u64) -> JsonValue {
    JsonValue::Number(JsonNumber { unsigned: Some(n), double_bits: Some((n as f64).to_bits()) })
}

fn float(x: f64) -> JsonValue {
    JsonValue::Number(JsonNumber { unsigned: None, double_bits: Some(x.to_bits()) })
}

fn text(s: &str) -> JsonValue {
    JsonValue::Str(s.to_string())
}

fn object(members: Vec<(&str, JsonValue)>) -> JsonValue {
    JsonValue::Object(members.into_iter().map(|(k, v)| (k.to_string(), v)).collect())
}

fn r(x: f64) -> Real {
    Real::from_bits(x.to_bits()).unwrap()
}

fn image_json(id: u64, date_captured: &str) -> JsonValue {
    object(vec![
        ("id", uint(id)),
        ("license", uint(1)),
        ("height", uint(480)),
        ("width", uint(640)),
        ("date_captured", text(date_captured)),
        ("file_name", text("000000000139.jpg")),
        ("coco_url", text("http://images.cocodataset.org/val2017/000000000139.jpg")),
        ("flickr_url", text("http://farm9.staticflickr.com/8035/8024364858_9c41dc1666_z.jpg")),
    ])
}

fn annotation_json(id: u64, segmentation: JsonValue) -> JsonValue {
    object(vec![
        ("area", float(702.1057499999998)),
        ("bbox", JsonValue::Array(vec![float(473.07), float(395.93), float(38.65), float(28.67)])),
        ("category_id", uint(18)),
        ("id", uint(id)),
        ("image_id", uint(289343)),
        ("iscrowd", uint(0)),
        ("segmentation", segmentation),
    ])
}

fn polygons_json() -> JsonValue {
    JsonValue::Array(vec![JsonValue::Array(vec![float(1.0), float(2.0), float(3.0), float(4.0)])])
}

fn mask_json() -> JsonValue {
    object(vec![
        ("counts", JsonValue::Array(vec![uint(1), uint(2), uint(3)])),
        ("size", JsonValue::Array(vec![uint(4), uint(5)])),
    ])
}

fn info_json() -> JsonValue {
    object(vec![
        ("contributor", text("COCO Consortium")),
        ("date_created", text("2017/09/01")),
        ("description", text("COCO 2017 Dataset")),
        ("url", text("http://cocodataset.org")),
        ("version", text("1.0")),
        ("year", uint(2017)),
    ])
}

fn document(date_captured: &str) -> JsonValue {
    object(vec![
        ("annotations", JsonValue::Array(vec![annotation_json(1, polygons_json()), annotation_json(2, mask_json())])),
        (
            "categories",
            JsonValue::Array(vec![object(vec![
                ("id", uint(18)),
                ("name", text("dog")),
                ("supercategory", text("animal")),
            ])]),
        ),
        ("images", JsonValue::Array(vec![image_json(139, "2013-11-14 12:36:29"), image_json(285, date_captured)])),
        ("info", info_json()),
        (
            "licenses",
            JsonValue::Array(vec![object(vec![
                ("id", uint(1)),
                ("name", text("Attribution-NonCommercial-ShareAlike License")),
                ("url", text("http://creativecommons.org/licenses/by-nc-sa/2.0/")),
            ])]),
        ),
    ])
}

#[test]
fn segmentation_object_is_verbose() {
    let s = decode_segmentation(&mask_json()).unwrap();
    assert_eq!(s, Segmentation::Verbose { counts: vec![1, 2, 3], size: [4, 5] });
}

#[test]
fn segmentation_lists_are_simple() {
    let s = decode_segmentation(&polygons_json()).unwrap();
    assert_eq!(s, Segmentation::Simple(vec![vec![r(1.0), r(2.0), r(3.0), r(4.0)]]));
}

#[test]
fn segmentation_bad_counts_is_schema_error() {
    let bad = object(vec![("counts", text("bad"))]);
    assert!(decode_segmentation(&bad).is_none());
    let e = Annotation::decode(&annotation_json(3, object(vec![("counts", text("bad"))]))).unwrap_err();
    assert_eq!(e.field, "segmentation");
    assert_eq!(e.problem, FieldProblem::WrongType);
}

#[test]
fn segmentation_size_needs_two_values() {
    let bad = object(vec![
        ("counts", JsonValue::Array(vec![uint(1)])),
        ("size", JsonValue::Array(vec![uint(4), uint(5), uint(6)])),
    ]);
    assert!(decode_segmentation(&bad).is_none());
}

#[test]
fn paths_are_resolved() {
    let (image_dir, instances_file) = dataset_paths("/data", "val2017");
    assert_eq!(image_dir, "/data/val2017");
    assert_eq!(instances_file, "/data/annotations/instances_val2017.json");
    let (image_dir, instances_file) = dataset_paths("/data/", "val2017");
    assert_eq!(image_dir, "/data/val2017");
    assert_eq!(instances_file, "/data/annotations/instances_val2017.json");
}

#[test]
fn flag_codec() {
    assert_eq!(serde_iscrowd::deserialize(&uint(1)), Ok(true));
    assert_eq!(serde_iscrowd::deserialize(&uint(0)), Ok(false));
    match serde_iscrowd::serialize(true) {
        JsonValue::Number(n) => assert_eq!(n.unsigned, Some(1)),
        other => panic!("unexpected {:?}", other),
    }
    match serde_iscrowd::serialize(false) {
        JsonValue::Number(n) => assert_eq!(n.unsigned, Some(0)),
        other => panic!("unexpected {:?}", other),
    }
    assert_eq!(serde_iscrowd::deserialize(&text("yes")), Err(FieldProblem::WrongType));
    assert_eq!(serde_iscrowd::deserialize(&float(1.5)), Err(FieldProblem::WrongType));
}

#[test]
fn flag_nonzero_reads_true() {
    assert_eq!(serde_iscrowd::deserialize(&uint(2)), Ok(true));
}

#[test]
fn date_codec() {
    let d = serde_date_created::from_text("2017/09/01").unwrap();
    assert_eq!((d.year, d.month, d.day), (2017, 9, 1));
    assert_eq!(serde_date_created::to_text(&d), "2017/09/01");
    assert!(serde_date_created::from_text("2017-09-01").is_none());
    assert!(serde_date_created::from_text("2017/9/1").is_none());
    assert!(serde_date_created::from_text("2017/02/29").is_none());
    assert!(serde_date_created::from_text("2016/02/29").is_some());
    assert_eq!(serde_date_created::deserialize(&text("2017-09-01")), Err(FieldProblem::Invalid));
    assert_eq!(serde_date_created::deserialize(&uint(2017)), Err(FieldProblem::WrongType));
}

#[test]
fn date_time_codec() {
    let t = serde_date_captured::from_text("2013-11-14 12:36:29").unwrap();
    assert_eq!((t.date.year, t.date.month, t.date.day), (2013, 11, 14));
    assert_eq!((t.hour, t.minute, t.second), (12, 36, 29));
    assert_eq!(serde_date_captured::to_text(&t), "2013-11-14 12:36:29");
    assert!(serde_date_captured::from_text("2013-11-14 24:00:00").is_none());
    assert!(serde_date_captured::from_text("2013/11/14 12:36:29").is_none());
    assert!(serde_date_captured::from_text("bad").is_none());
    assert_eq!(serde_date_captured::deserialize(&text("bad")), Err(FieldProblem::Invalid));
}

#[test]
fn date_time_written_with_padding() {
    let date = Date::new(7, 1, 2).unwrap();
    let t = DateTime::new(date, 3, 4, 5).unwrap();
    assert_eq!(serde_date_captured::to_text(&t), "0007-01-02 03:04:05");
    match serde_date_captured::serialize(&t) {
        JsonValue::Str(s) => assert_eq!(s, "0007-01-02 03:04:05"),
        other => panic!("unexpected {:?}", other),
    }
}

#[test]
fn calendar_checks() {
    assert!(Date::new(2017, 2, 29).is_none());
    assert!(Date::new(2000, 2, 29).is_some());
    assert!(Date::new(1900, 2, 29).is_none());
    assert!(Date::new(2017, 13, 1).is_none());
    assert!(Date::new(10000, 1, 1).is_none());
    let d = Date::new(2017, 4, 30).unwrap();
    assert!(DateTime::new(d, 23, 59, 59).is_some());
    assert!(DateTime::new(d, 23, 60, 0).is_none());
}

#[test]
fn url_codec() {
    let u = Url::parse("http://cocodataset.org").unwrap();
    assert_eq!(Url::parse("http://[::1"), Err(url::ParseError::InvalidIpv6Address));
    assert_eq!(u.as_str(), "http://cocodataset.org/");
    assert_eq!(Url::parse("not a url"), Err(url::ParseError::RelativeUrlWithoutBase));
    assert_eq!(serde_url::deserialize(&text("/relative/path")), Err(FieldProblem::Invalid));
    match serde_url::serialize(&u) {
        JsonValue::Str(s) => assert_eq!(s, "http://cocodataset.org/"),
        other => panic!("unexpected {:?}", other),
    }
}

#[test]
fn reals_must_be_finite() {
    assert!(Real::from_bits(f64::INFINITY.to_bits()).is_none());
    assert!(Real::from_bits(f64::NAN.to_bits()).is_none());
    assert_eq!(Real::from_bits(2.5f64.to_bits()).unwrap().bits, 2.5f64.to_bits());
}

#[test]
fn records_decode() {
    let c = Category::decode(&object(vec![
        ("id", uint(18)),
        ("name", text("dog")),
        ("supercategory", text("animal")),
    ]))
    .unwrap();
    assert_eq!(c, Category { id: 18, name: "dog".to_string(), supercategory: "animal".to_string() });
    let l = License::decode(&object(vec![
        ("id", uint(1)),
        ("name", text("x")),
        ("url", text("http://creativecommons.org/licenses/by-nc-sa/2.0/")),
    ]))
    .unwrap();
    assert_eq!(l.url.as_str(), "http://creativecommons.org/licenses/by-nc-sa/2.0/");
    let i = Image::decode(&image_json(139, "2013-11-14 12:36:29")).unwrap();
    assert_eq!((i.id, i.height, i.width), (139, 480, 640));
    assert_eq!(i.date_captured.hour, 12);
    let a = Annotation::decode(&annotation_json(1, polygons_json())).unwrap();
    assert_eq!(a.area, r(702.1057499999998));
    assert_eq!(a.bbox, [r(473.07), r(395.93), r(38.65), r(28.67)]);
    assert!(!a.iscrowd);
}

#[test]
fn missing_field_is_rejected() {
    let e = Category::decode(&object(vec![("id", uint(18)), ("supercategory", text("animal"))])).unwrap_err();
    assert_eq!(e.field, "name");
    assert_eq!(e.problem, FieldProblem::Missing);
}

#[test]
fn wrong_type_is_rejected() {
    let e = Category::decode(&object(vec![
        ("id", text("18")),
        ("name", text("dog")),
        ("supercategory", text("animal")),
    ]))
    .unwrap_err();
    assert_eq!(e.field, "id");
    assert_eq!(e.problem, FieldProblem::WrongType);
}

#[test]
fn extra_members_are_ignored() {
    let c = Category::decode(&object(vec![
        ("id", uint(18)),
        ("name", text("dog")),
        ("supercategory", text("animal")),
        ("isthing", uint(1)),
    ]))
    .unwrap();
    assert_eq!(c.name, "dog");
}

#[test]
fn bbox_needs_four_values() {
    let mut a = annotation_json(1, polygons_json());
    if let JsonValue::Object(members) = &mut a {
        members[1].1 = JsonValue::Array(vec![float(1.0), float(2.0), float(3.0)]);
    }
    let e = Annotation::decode(&a).unwrap_err();
    assert_eq!(e.field, "bbox");
    assert_eq!(e.problem, FieldProblem::Invalid);
}

#[test]
fn dataset_loads_fixture() {
    let d = DataSet::load("/data", "val2017", &document("2013-11-14 12:36:29")).unwrap();
    assert_eq!(d.instances.images.len(), 2);
    assert_eq!(d.instances.annotations.len(), 2);
    assert_eq!(d.instances.categories.len(), 1);
    assert_eq!(d.instances.licenses.len(), 1);
    assert_eq!(d.image_dir, "/data/val2017");
    assert_eq!(d.instances_file, "/data/annotations/instances_val2017.json");
    assert_eq!(d.instances.images[1].id, 285);
    assert_eq!(d.instances.annotations[1].segmentation, Segmentation::Verbose { counts: vec![1, 2, 3], size: [4, 5] });
    assert_eq!(d.instances.info.date_created, Date::new(2017, 9, 1).unwrap());
}

#[test]
fn dataset_bad_date_captured_is_schema_error() {
    match DataSet::load("/data", "val2017", &document("bad")) {
        Err(LoadError::Schema(e)) => {
            assert_eq!(e.field, "images.date_captured");
            assert_eq!(e.problem, FieldProblem::Invalid);
        },
        other => panic!("unexpected {:?}", other),
    }
}

#[test]
fn dataset_missing_list_is_schema_error() {
    let doc = object(vec![("annotations", JsonValue::Array(vec![]))]);
    match DataSet::load("/data", "val2017", &doc) {
        Err(LoadError::Schema(e)) => {
            assert_eq!(e.field, "categories");
            assert_eq!(e.problem, FieldProblem::Missing);
        },
        other => panic!("unexpected {:?}", other),
    }
    let i = Instances::decode(&document("2013-11-14 12:36:29")).unwrap();
    assert_eq!(i.images[0].file_name, "000000000139.jpg");
}

#[test]
fn shape_lines() {
    assert_eq!(parse_shape_line("640 480"), Some((480, 640)));
    assert_eq!(parse_shape_line("  640\t480  "), Some((480, 640)));
    assert_eq!(parse_shape_line("+640 480"), Some((480, 640)));
    assert_eq!(parse_shape_line("640"), None);
    assert_eq!(parse_shape_line("640 480 3"), None);
    assert_eq!(parse_shape_line("640 -480"), None);
    assert_eq!(parse_shape_line("640 99999999999999999999999"), None);
}

#[test]
fn list_and_shapes_pair_up() {
    let list = vec!["a.jpg".to_string(), "b.jpg".to_string(), "c.jpg".to_string()];
    let shapes = vec!["640 480".to_string(), "10 20".to_string()];
    let metas = load_from_list_shape("/d", &list, &shapes).unwrap();
    assert_eq!(
        metas,
        vec![
            ImageMeta { path: "/d/a.jpg".to_string(), height: 480, width: 640 },
            ImageMeta { path: "/d/b.jpg".to_string(), height: 20, width: 10 },
        ]
    );
    let bad = vec!["640 480".to_string(), "x".to_string()];
    assert_eq!(load_from_list_shape("/d", &list, &bad), Err(ListError::BadShapeLine(1)));
    assert_eq!(load("/d", &vec![(list.clone(), shapes.clone()), (list.clone(), bad)]), Err(ListError::BadShapeLine(1)));
    assert_eq!(load("/d", &vec![(list, shapes)]), Ok(()));
}

#[test]
fn split_file_names() {
    let files = split_files("/d");
    assert_eq!(files[0], ("/d/train2017.txt".to_string(), "/d/train2017.shapes".to_string()));
    assert_eq!(files[1].0, "/d/test-dev2017.txt");
    assert_eq!(files[2].1, "/d/val2017.shapes");
}

#[test]
fn records_round_trip() {
    let first = Instances::decode(&document("2013-11-14 12:36:29")).unwrap();
    let again = Instances::decode(&first.encode()).unwrap();
    assert_eq!(first, again);
    let c = Category { id: 3, name: "car".to_string(), supercategory: "vehicle".to_string() };
    assert_eq!(Category::decode(&c.encode()).unwrap(), c);
}

#[test]
fn encoded_record_layout() {
    let c = Category { id: 3, name: "car".to_string(), supercategory: "vehicle".to_string() };
    match c.encode() {
        JsonValue::Object(members) => {
            let keys: Vec<&str> = members.iter().map(|(k, _)| k.as_str()).collect();
            assert_eq!(keys, vec!["id", "name", "supercategory"]);
        },
        other => panic!("unexpected {:?}", other),
    }
    let d = serde_date_created::serialize(&Date::new(2017, 9, 1).unwrap());
    match d {
        JsonValue::Str(s) => assert_eq!(s, "2017/09/01"),
        other => panic!("unexpected {:?}", other),
    }
}
