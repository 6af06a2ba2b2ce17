//! Decoding the records of an annotation document from its structured data.
//! Every field is mandatory; members that no field names are ignored.
use crate::error::{FieldProblem, SchemaError};
use crate::json::{lookup, lookup_from, member, text_of, unsigned_of, JsonNumber, JsonValue};
use crate::types::{Annotation, Category, Image, Info, Instances, License, Segmentation};
use crate::utils::serde_date_captured::date_time_of;
use crate::utils::serde_date_created::date_of;
use crate::utils::serde_iscrowd::flag_of;
use crate::utils::serde_url::url_of;
use crate::utils::{serde_date_captured, serde_date_created, serde_iscrowd, serde_url};
use crate::values::{is_finite_bits, Date, DateTime, Real, Url};
use vstd::prelude::*;
use vstd::string::StringExecFns;

verus! {

/// Where decoding stops: the first field, in schema order, whose result is an error.
pub open spec fn check<T>(
    key: Seq<char>,
    r: Result<T, FieldProblem>,
    rest: Option<(Seq<char>, FieldProblem)>,
) -> Option<(Seq<char>, FieldProblem)> {
    match r {
        Err(p) => Some((key, p)),
        Ok(_) => rest,
    }
}

/// The unsigned integer `x` holds, if it is one that fits in `usize`.
pub open spec fn usize_item(x: JsonValue) -> Option<usize> {
    match unsigned_of(x) {
        Some(n) => if n <= usize::MAX {
            Some(n as usize)
        } else {
            None
        },
        None => None,
    }
}

/// The finite real that `x` holds, if it is a number with a finite double reading.
pub open spec fn real_item(x: JsonValue) -> Option<Real> {
    match x {
        JsonValue::Number(n) => match n.double_bits {
            Some(b) => if is_finite_bits(b) {
                Some(Real { bits: b })
            } else {
                None
            },
            None => None,
        },
        _ => None,
    }
}

pub open spec fn array_items(x: JsonValue) -> Option<Seq<JsonValue>> {
    match x {
        JsonValue::Array(items) => Some(items@),
        _ => None,
    }
}

/// Reading member `key` of `v` as an unsigned integer.
pub open spec fn usize_member(v: JsonValue, key: Seq<char>) -> Result<usize, FieldProblem> {
    match lookup(v, key) {
        None => Err(FieldProblem::Missing),
        Some(x) => match unsigned_of(x) {
            None => Err(FieldProblem::WrongType),
            Some(n) => if n <= usize::MAX {
                Ok(n as usize)
            } else {
                Err(FieldProblem::Invalid)
            },
        },
    }
}

/// Reading member `key` of `v` as a text.
pub open spec fn text_member(v: JsonValue, key: Seq<char>) -> Result<Seq<char>, FieldProblem> {
    match lookup(v, key) {
        None => Err(FieldProblem::Missing),
        Some(x) => match text_of(x) {
            None => Err(FieldProblem::WrongType),
            Some(s) => Ok(s),
        },
    }
}

/// Reading member `key` of `v` as a URL.
pub open spec fn url_member(v: JsonValue, key: Seq<char>) -> Result<Seq<char>, FieldProblem> {
    match lookup(v, key) {
        None => Err(FieldProblem::Missing),
        Some(x) => url_of(x),
    }
}

fn field_error(key: &str, problem: FieldProblem) -> (e: SchemaError)
    ensures
        e.field@ == key@,
        e.problem == problem,
{
    SchemaError { field: key.to_owned(), problem }
}

fn missing(key: &str) -> (e: SchemaError)
    ensures
        e.field@ == key@,
        e.problem == FieldProblem::Missing,
{
    field_error(key, FieldProblem::Missing)
}

/// Reads member `key` of `v` as an unsigned integer.
pub fn read_usize(v: &JsonValue, key: &str) -> (r: Result<usize, SchemaError>)
    ensures
        r is Ok <==> usize_member(*v, key@) is Ok,
        r matches Ok(n) ==> usize_member(*v, key@) == Ok::<usize, FieldProblem>(n),
        r matches Err(e) ==> e.field@ == key@ && usize_member(*v, key@) == Err::<usize, FieldProblem>(e.problem),
{
    match member(v, key) {
        None => Err(missing(key)),
        Some(JsonValue::Number(n)) => match n.unsigned {
            Some(k) => if k <= usize::MAX as u64 {
                Ok(k as usize)
            } else {
                Err(field_error(key, FieldProblem::Invalid))
            },
            None => Err(field_error(key, FieldProblem::WrongType)),
        },
        Some(_) => Err(field_error(key, FieldProblem::WrongType)),
    }
}

/// Reads member `key` of `v` as a text.
pub fn read_text(v: &JsonValue, key: &str) -> (r: Result<String, SchemaError>)
    ensures
        r is Ok <==> text_member(*v, key@) is Ok,
        r matches Ok(s) ==> text_member(*v, key@) == Ok::<Seq<char>, FieldProblem>(s@),
        r matches Err(e) ==> e.field@ == key@ && text_member(*v, key@) == Err::<Seq<char>, FieldProblem>(
            e.problem,
        ),
{
    match member(v, key) {
        None => Err(missing(key)),
        Some(JsonValue::Str(s)) => Ok(s.clone()),
        Some(_) => Err(field_error(key, FieldProblem::WrongType)),
    }
}

/// Reads member `key` of `v` as a URL.
pub fn read_url(v: &JsonValue, key: &str) -> (r: Result<Url, SchemaError>)
    ensures
        r is Ok <==> url_member(*v, key@) is Ok,
        r matches Ok(u) ==> url_member(*v, key@) == Ok::<Seq<char>, FieldProblem>(u@),
        r matches Err(e) ==> e.field@ == key@ && url_member(*v, key@) == Err::<Seq<char>, FieldProblem>(
            e.problem,
        ),
{
    match member(v, key) {
        None => Err(missing(key)),
        Some(x) => match serde_url::deserialize(x) {
            Ok(u) => Ok(u),
            Err(p) => Err(field_error(key, p)),
        },
    }
}

/// A record of the document, decoded from an object.
pub trait Record: Sized {
    /// The first field, in schema order, that cannot be read from `v`, and why.
    spec fn problem(v: JsonValue) -> Option<(Seq<char>, FieldProblem)>;

    /// Whether `x` holds what each field of `v` reads as.
    spec fn matches(v: JsonValue, x: Self) -> bool;

    /// Whether each field holds a value that its wire form can carry.
    spec fn valid(&self) -> bool;

    fn decode(v: &JsonValue) -> (r: Result<Self, SchemaError>)
        ensures
            r is Ok <==> Self::problem(*v) is None,
            r matches Ok(x) ==> Self::matches(*v, x),
            r matches Err(e) ==> Self::problem(*v) == Some((e.field@, e.problem)),
    ;

    /// The wire form of the record, which decodes back to it.
    fn encode(&self) -> (r: JsonValue)
        requires
            self.valid(),
        ensures
            Self::problem(r) is None,
            Self::matches(r, *self),
    ;
}

/// A member found at position `i`, after members of other names, is what lookup finds.
pub proof fn lemma_lookup_at(m: Seq<(String, JsonValue)>, key: Seq<char>, i: int, start: int)
    requires
        0 <= start <= i < m.len(),
        m[i].0@ == key,
        forall|j: int| start <= j < i ==> (#[trigger] m[j]).0@ != key,
    ensures
        lookup_from(m, key, start) == Some(m[i].1),
    decreases i - start,
{
    if start < i {
        lemma_lookup_at(m, key, i, start + 1);
    }
}

/// The wire number of an unsigned integer.
pub fn usize_value(n: usize) -> (r: JsonValue)
    ensures
        usize_item(r) == Some(n),
        unsigned_of(r) == Some(n as u64),
{
    JsonValue::Number(JsonNumber { unsigned: Some(n as u64), double_bits: None })
}

/// The wire number of a finite real.
pub fn real_value(x: Real) -> (r: JsonValue)
    requires
        x.wf(),
    ensures
        real_item(r) == Some(x),
        r is Number,
{
    JsonValue::Number(JsonNumber { unsigned: None, double_bits: Some(x.bits) })
}

/// The wire numbers of unsigned integers.
pub fn usize_values(v: &Vec<usize>) -> (r: Vec<JsonValue>)
    ensures
        usizes_match(r@, v@),
        all_usizes(r@),
{
    let mut out: Vec<JsonValue> = Vec::new();
    let mut i: usize = 0;
    while i < v.len()
        invariant
            i <= v@.len(),
            out@.len() == i,
            forall|j: int| 0 <= j < i ==> usize_item(#[trigger] out@[j]) == Some(v@[j]),
        decreases v@.len() - i,
    {
        out.push(usize_value(v[i]));
        i = i + 1;
    }
    out
}

/// The wire numbers of finite reals.
pub fn real_values(v: &Vec<Real>) -> (r: Vec<JsonValue>)
    requires
        forall|j: int| 0 <= j < v@.len() ==> (#[trigger] v@[j]).wf(),
    ensures
        reals_match(r@, v@),
        all_reals(r@),
{
    let mut out: Vec<JsonValue> = Vec::new();
    let mut i: usize = 0;
    while i < v.len()
        invariant
            i <= v@.len(),
            out@.len() == i,
            forall|j: int| 0 <= j < v@.len() ==> (#[trigger] v@[j]).wf(),
            forall|j: int| 0 <= j < i ==> real_item(#[trigger] out@[j]) == Some(v@[j]),
        decreases v@.len() - i,
    {
        out.push(real_value(v[i]));
        i = i + 1;
    }
    out
}

impl Record for Category {
    open spec fn problem(v: JsonValue) -> Option<(Seq<char>, FieldProblem)> {
        check(
            "id"@,
            usize_member(v, "id"@),
            check(
                "name"@,
                text_member(v, "name"@),
                check("supercategory"@, text_member(v, "supercategory"@), None),
            ),
        )
    }

    open spec fn matches(v: JsonValue, x: Category) -> bool {
        &&& usize_member(v, "id"@) == Ok::<usize, FieldProblem>(x.id)
        &&& text_member(v, "name"@) == Ok::<Seq<char>, FieldProblem>(x.name@)
        &&& text_member(v, "supercategory"@) == Ok::<Seq<char>, FieldProblem>(x.supercategory@)
    }

    open spec fn valid(&self) -> bool {
        true
    }

    fn encode(&self) -> (r: JsonValue) {
        let mut m: Vec<(String, JsonValue)> = Vec::new();
        m.push(("id".to_owned(), usize_value(self.id)));
        m.push(("name".to_owned(), JsonValue::Str(self.name.clone())));
        m.push(("supercategory".to_owned(), JsonValue::Str(self.supercategory.clone())));
        proof {
            reveal_strlit("id");
            assert("id"@.len() == 2 && "id"@[0] == 'i');
            reveal_strlit("name");
            assert("name"@.len() == 4 && "name"@[0] == 'n');
            reveal_strlit("supercategory");
            assert("supercategory"@.len() == 13 && "supercategory"@[0] == 's');
            lemma_lookup_at(m@, "id"@, 0, 0);
            lemma_lookup_at(m@, "name"@, 1, 0);
            lemma_lookup_at(m@, "supercategory"@, 2, 0);
        }
        JsonValue::Object(m)
    }

    fn decode(v: &JsonValue) -> (r: Result<Category, SchemaError>) {
        let id = read_usize(v, "id")?;
        let name = read_text(v, "name")?;
        let supercategory = read_text(v, "supercategory")?;
        Ok(Category { id, name, supercategory })
    }
}

impl Record for License {
    open spec fn problem(v: JsonValue) -> Option<(Seq<char>, FieldProblem)> {
        check(
            "id"@,
            usize_member(v, "id"@),
            check("name"@, text_member(v, "name"@), check("url"@, url_member(v, "url"@), None)),
        )
    }

    open spec fn matches(v: JsonValue, x: License) -> bool {
        &&& usize_member(v, "id"@) == Ok::<usize, FieldProblem>(x.id)
        &&& text_member(v, "name"@) == Ok::<Seq<char>, FieldProblem>(x.name@)
        &&& url_member(v, "url"@) == Ok::<Seq<char>, FieldProblem>(x.url@)
    }

    open spec fn valid(&self) -> bool {
        self.url.is_canonical()
    }

    fn encode(&self) -> (r: JsonValue) {
        let mut m: Vec<(String, JsonValue)> = Vec::new();
        m.push(("id".to_owned(), usize_value(self.id)));
        m.push(("name".to_owned(), JsonValue::Str(self.name.clone())));
        m.push(("url".to_owned(), serde_url::serialize(&self.url)));
        proof {
            reveal_strlit("id");
            assert("id"@.len() == 2 && "id"@[0] == 'i');
            reveal_strlit("name");
            assert("name"@.len() == 4 && "name"@[0] == 'n');
            reveal_strlit("url");
            assert("url"@.len() == 3 && "url"@[0] == 'u');
            lemma_lookup_at(m@, "id"@, 0, 0);
            lemma_lookup_at(m@, "name"@, 1, 0);
            lemma_lookup_at(m@, "url"@, 2, 0);
        }
        JsonValue::Object(m)
    }

    fn decode(v: &JsonValue) -> (r: Result<License, SchemaError>) {
        let id = read_usize(v, "id")?;
        let name = read_text(v, "name")?;
        let url = read_url(v, "url")?;
        Ok(License { id, name, url })
    }
}

/// Reading member `key` of `v` as a calendar date.
pub open spec fn date_member(v: JsonValue, key: Seq<char>) -> Result<Date, FieldProblem> {
    match lookup(v, key) {
        None => Err(FieldProblem::Missing),
        Some(x) => date_of(x),
    }
}

/// Reading member `key` of `v` as a timestamp.
pub open spec fn date_time_member(v: JsonValue, key: Seq<char>) -> Result<DateTime, FieldProblem> {
    match lookup(v, key) {
        None => Err(FieldProblem::Missing),
        Some(x) => date_time_of(x),
    }
}

/// Reading member `key` of `v` as a flag.
pub open spec fn flag_member(v: JsonValue, key: Seq<char>) -> Result<bool, FieldProblem> {
    match lookup(v, key) {
        None => Err(FieldProblem::Missing),
        Some(x) => flag_of(x),
    }
}

/// Reading member `key` of `v` as a finite real.
pub open spec fn real_member(v: JsonValue, key: Seq<char>) -> Result<Real, FieldProblem> {
    match lookup(v, key) {
        None => Err(FieldProblem::Missing),
        Some(JsonValue::Number(n)) => match real_item(JsonValue::Number(n)) {
            Some(x) => Ok(x),
            None => Err(FieldProblem::Invalid),
        },
        Some(_) => Err(FieldProblem::WrongType),
    }
}

/// Whether `out` holds the unsigned integers that `items` hold, in order.
pub open spec fn usizes_match(items: Seq<JsonValue>, out: Seq<usize>) -> bool {
    items.len() == out.len() && forall|i: int| 0 <= i < items.len() ==> usize_item(#[trigger] items[i]) == Some(out[i])
}

pub open spec fn all_usizes(items: Seq<JsonValue>) -> bool {
    forall|i: int| 0 <= i < items.len() ==> (#[trigger] usize_item(items[i])) is Some
}

/// Whether `out` holds the finite reals that `items` hold, in order.
pub open spec fn reals_match(items: Seq<JsonValue>, out: Seq<Real>) -> bool {
    items.len() == out.len() && forall|i: int| 0 <= i < items.len() ==> real_item(#[trigger] items[i]) == Some(out[i])
}

pub open spec fn all_reals(items: Seq<JsonValue>) -> bool {
    forall|i: int| 0 <= i < items.len() ==> (#[trigger] real_item(items[i])) is Some
}

/// Reading member `key` of `v` as a box of exactly four finite reals.
pub open spec fn bbox_ok(v: JsonValue, key: Seq<char>) -> Result<(), FieldProblem> {
    match lookup(v, key) {
        None => Err(FieldProblem::Missing),
        Some(x) => match array_items(x) {
            Some(items) => if items.len() == 4 && all_reals(items) {
                Ok(())
            } else {
                Err(FieldProblem::Invalid)
            },
            None => Err(FieldProblem::WrongType),
        },
    }
}

/// Whether `x` is a list of finite reals.
pub open spec fn polygon_ok(x: JsonValue) -> bool {
    array_items(x) matches Some(p) && all_reals(p)
}

/// Whether `out` holds the finite reals of the list `x`.
pub open spec fn polygon_matches(x: JsonValue, out: Seq<Real>) -> bool {
    array_items(x) matches Some(p) && reals_match(p, out)
}

/// Whether `v` has one of the two shapes of a segmentation: an object whose `counts`
/// is a list of unsigned integers and whose `size` is a list of exactly two, or a
/// list of lists of finite reals.
pub open spec fn segmentation_ok(v: JsonValue) -> bool {
    match v {
        JsonValue::Object(_) => {
            &&& lookup(v, "counts"@) matches Some(c) && array_items(c) matches Some(cs) && all_usizes(cs)
            &&& lookup(v, "size"@) matches Some(z) && array_items(z) matches Some(zs) && zs.len() == 2
                && all_usizes(zs)
        },
        JsonValue::Array(items) => forall|i: int| 0 <= i < items@.len() ==> #[trigger] polygon_ok(items@[i]),
        _ => false,
    }
}

/// Whether `s` is what the segmentation `v` reads as.
pub open spec fn segmentation_matches(v: JsonValue, s: Segmentation) -> bool {
    match s {
        Segmentation::Verbose { counts, size } => {
            &&& v is Object
            &&& lookup(v, "counts"@) matches Some(c) && array_items(c) matches Some(cs) && usizes_match(cs, counts@)
            &&& lookup(v, "size"@) matches Some(z) && array_items(z) matches Some(zs) && usizes_match(zs, size@)
        },
        Segmentation::Simple(polygons) => match v {
            JsonValue::Array(items) => items@.len() == polygons@.len() && forall|i: int|
                0 <= i < polygons@.len() ==> #[trigger] polygon_matches(items@[i], polygons@[i]@),
            _ => false,
        },
    }
}

/// Reading member `key` of `v` as a segmentation.
pub open spec fn segmentation_member(v: JsonValue, key: Seq<char>) -> Result<(), FieldProblem> {
    match lookup(v, key) {
        None => Err(FieldProblem::Missing),
        Some(x) => if segmentation_ok(x) {
            Ok(())
        } else {
            Err(FieldProblem::WrongType)
        },
    }
}

/// The unsigned integers that `items` hold, if all of them are such numbers.
pub fn read_usizes(items: &Vec<JsonValue>) -> (r: Option<Vec<usize>>)
    ensures
        r is Some <==> all_usizes(items@),
        r matches Some(out) ==> usizes_match(items@, out@),
{
    let mut out: Vec<usize> = Vec::new();
    let mut i: usize = 0;
    while i < items.len()
        invariant
            i <= items@.len(),
            out@.len() == i,
            forall|j: int| 0 <= j < i ==> usize_item(#[trigger] items@[j]) == Some(out@[j]),
        decreases items@.len() - i,
    {
        match &items[i] {
            JsonValue::Number(n) => match n.unsigned {
                Some(k) => {
                    if k > usize::MAX as u64 {
                        return None;
                    }
                    out.push(k as usize);
                },
                None => return None,
            },
            _ => return None,
        }
        i = i + 1;
    }
    Some(out)
}

/// The finite reals that `items` hold, if all of them are such numbers.
pub fn read_reals(items: &Vec<JsonValue>) -> (r: Option<Vec<Real>>)
    ensures
        r is Some <==> all_reals(items@),
        r matches Some(out) ==> reals_match(items@, out@),
{
    let mut out: Vec<Real> = Vec::new();
    let mut i: usize = 0;
    while i < items.len()
        invariant
            i <= items@.len(),
            out@.len() == i,
            forall|j: int| 0 <= j < i ==> real_item(#[trigger] items@[j]) == Some(out@[j]),
        decreases items@.len() - i,
    {
        match &items[i] {
            JsonValue::Number(n) => match n.double_bits {
                Some(b) => match Real::from_bits(b) {
                    Some(x) => out.push(x),
                    None => return None,
                },
                None => return None,
            },
            _ => return None,
        }
        i = i + 1;
    }
    Some(out)
}

/// Decodes a segmentation: first as a run-length mask, then as polygons.
pub fn decode_segmentation(v: &JsonValue) -> (r: Option<Segmentation>)
    ensures
        r is Some <==> segmentation_ok(*v),
        r matches Some(s) ==> segmentation_matches(*v, s),
{
    match v {
        JsonValue::Object(_) => {
            let counts = match member(v, "counts") {
                Some(JsonValue::Array(cs)) => read_usizes(cs),
                _ => None,
            };
            let size = match member(v, "size") {
                Some(JsonValue::Array(zs)) => if zs.len() == 2 {
                    read_usizes(zs)
                } else {
                    None
                },
                _ => None,
            };
            match (counts, size) {
                (Some(counts), Some(size)) => {
                    let size = [size[0], size[1]];
                    proof {
                        assert(size@ =~= seq![size@[0], size@[1]]);
                    }
                    Some(Segmentation::Verbose { counts, size })
                },
                _ => None,
            }
        },
        JsonValue::Array(items) => {
            let mut polygons: Vec<Vec<Real>> = Vec::new();
            let mut i: usize = 0;
            while i < items.len()
                invariant
                    *v == JsonValue::Array(*items),
                    i <= items@.len(),
                    polygons@.len() == i,
                    forall|j: int| 0 <= j < i ==> #[trigger] polygon_matches(items@[j], polygons@[j]@),
                    forall|j: int| 0 <= j < i ==> #[trigger] polygon_ok(items@[j]),
                decreases items@.len() - i,
            {
                let p = match &items[i] {
                    JsonValue::Array(coords) => read_reals(coords),
                    _ => None,
                };
                match p {
                    Some(p) => {
                        proof {
                            let ps = array_items(items@[i as int])->Some_0;
                            assert forall|k: int| 0 <= k < ps.len() implies (#[trigger] real_item(ps[k])) is Some by {
                                assert(real_item(ps[k]) == Some(p@[k]));
                            }
                        }
                        polygons.push(p);
                    },
                    None => {
                        assert(!polygon_ok(items@[i as int]));
                        assert(!segmentation_ok(*v)) by {
                            if segmentation_ok(*v) {
                                let its = v->Array_0;
                                assert(its == *items);
                                assert(polygon_ok(its@[i as int]));
                            }
                        }
                        return None;
                    },
                }
                i = i + 1;
            }
            Some(Segmentation::Simple(polygons))
        },
        _ => None,
    }
}

/// Whether every coordinate of a polygon is finite.
pub open spec fn polygon_valid(p: Seq<Real>) -> bool {
    forall|j: int| 0 <= j < p.len() ==> (#[trigger] p[j]).wf()
}

/// Whether every coordinate of a segmentation is finite.
pub open spec fn segmentation_valid(s: Segmentation) -> bool {
    match s {
        Segmentation::Verbose { .. } => true,
        Segmentation::Simple(polygons) => forall|i: int| 0 <= i < polygons@.len() ==> #[trigger] polygon_valid(polygons@[i]@),
    }
}

/// The wire form of a segmentation, which decodes back to it.
pub fn encode_segmentation(s: &Segmentation) -> (r: JsonValue)
    requires
        segmentation_valid(*s),
    ensures
        segmentation_ok(r),
        segmentation_matches(r, *s),
{
    match s {
        Segmentation::Verbose { counts, size } => {
            let counts_values = usize_values(counts);
            let mut size_vec: Vec<usize> = Vec::new();
            size_vec.push(size[0]);
            size_vec.push(size[1]);
            assert(size_vec@ =~= size@);
            let size_values = usize_values(&size_vec);
            let mut m: Vec<(String, JsonValue)> = Vec::new();
            m.push(("counts".to_owned(), JsonValue::Array(counts_values)));
            m.push(("size".to_owned(), JsonValue::Array(size_values)));
            proof {
                reveal_strlit("counts");
                assert("counts"@.len() == 6 && "counts"@[0] == 'c');
                reveal_strlit("size");
                assert("size"@.len() == 4 && "size"@[0] == 's');
                lemma_lookup_at(m@, "counts"@, 0, 0);
                lemma_lookup_at(m@, "size"@, 1, 0);
            }
            JsonValue::Object(m)
        },
        Segmentation::Simple(polygons) => {
            let mut out: Vec<JsonValue> = Vec::new();
            let mut i: usize = 0;
            while i < polygons.len()
                invariant
                    i <= polygons@.len(),
                    out@.len() == i,
                    forall|k: int| 0 <= k < polygons@.len() ==> #[trigger] polygon_valid(polygons@[k]@),
                    forall|j: int| 0 <= j < i ==> #[trigger] polygon_matches(out@[j], polygons@[j]@),
                    forall|j: int| 0 <= j < i ==> #[trigger] polygon_ok(out@[j]),
                decreases polygons@.len() - i,
            {
                assert(polygon_valid(polygons@[i as int]@));
                out.push(JsonValue::Array(real_values(&polygons[i])));
                i = i + 1;
            }
            JsonValue::Array(out)
        },
    }
}

/// A list whose records all decode has no first problem.
pub proof fn lemma_no_first_problem<T: Record>(items: Seq<JsonValue>, i: int)
    requires
        0 <= i,
        forall|j: int| i <= j < items.len() ==> (#[trigger] T::problem(items[j])) is None,
    ensures
        first_problem::<T>(items, i) is None,
    decreases items.len() - i,
{
    if i < items.len() {
        lemma_no_first_problem::<T>(items, i + 1);
    }
}

/// The wire forms of a list of records, which decode back to them.
pub fn encode_list<T: Record>(xs: &Vec<T>) -> (r: Vec<JsonValue>)
    requires
        forall|i: int| 0 <= i < xs@.len() ==> (#[trigger] xs@[i]).valid(),
    ensures
        all_match(r@, xs@),
        first_problem::<T>(r@, 0) is None,
{
    let mut out: Vec<JsonValue> = Vec::new();
    let mut i: usize = 0;
    while i < xs.len()
        invariant
            i <= xs@.len(),
            out@.len() == i,
            forall|k: int| 0 <= k < xs@.len() ==> (#[trigger] xs@[k]).valid(),
            forall|j: int| 0 <= j < i ==> #[trigger] T::matches(out@[j], xs@[j]),
            forall|j: int| 0 <= j < i ==> (#[trigger] T::problem(out@[j])) is None,
        decreases xs@.len() - i,
    {
        assert(xs@[i as int].valid());
        out.push(xs[i].encode());
        i = i + 1;
    }
    proof {
        lemma_no_first_problem::<T>(out@, 0);
    }
    out
}

impl Record for Info {
    open spec fn problem(v: JsonValue) -> Option<(Seq<char>, FieldProblem)> {
        check(
            "contributor"@,
            text_member(v, "contributor"@),
            check(
                "date_created"@,
                date_member(v, "date_created"@),
                check(
                    "description"@,
                    text_member(v, "description"@),
                    check(
                        "url"@,
                        url_member(v, "url"@),
                        check(
                            "version"@,
                            text_member(v, "version"@),
                            check("year"@, usize_member(v, "year"@), None),
                        ),
                    ),
                ),
            ),
        )
    }

    open spec fn matches(v: JsonValue, x: Info) -> bool {
        &&& text_member(v, "contributor"@) == Ok::<Seq<char>, FieldProblem>(x.contributor@)
        &&& date_member(v, "date_created"@) == Ok::<Date, FieldProblem>(x.date_created)
        &&& text_member(v, "description"@) == Ok::<Seq<char>, FieldProblem>(x.description@)
        &&& url_member(v, "url"@) == Ok::<Seq<char>, FieldProblem>(x.url@)
        &&& text_member(v, "version"@) == Ok::<Seq<char>, FieldProblem>(x.version@)
        &&& usize_member(v, "year"@) == Ok::<usize, FieldProblem>(x.year)
    }

    open spec fn valid(&self) -> bool {
        self.date_created.wf() && self.url.is_canonical()
    }

    fn encode(&self) -> (r: JsonValue) {
        let mut m: Vec<(String, JsonValue)> = Vec::new();
        m.push(("contributor".to_owned(), JsonValue::Str(self.contributor.clone())));
        m.push(("date_created".to_owned(), serde_date_created::serialize(&self.date_created)));
        m.push(("description".to_owned(), JsonValue::Str(self.description.clone())));
        m.push(("url".to_owned(), serde_url::serialize(&self.url)));
        m.push(("version".to_owned(), JsonValue::Str(self.version.clone())));
        m.push(("year".to_owned(), usize_value(self.year)));
        proof {
            reveal_strlit("contributor");
            assert("contributor"@.len() == 11 && "contributor"@[0] == 'c');
            reveal_strlit("date_created");
            assert("date_created"@.len() == 12 && "date_created"@[0] == 'd');
            reveal_strlit("description");
            assert("description"@.len() == 11 && "description"@[0] == 'd');
            reveal_strlit("url");
            assert("url"@.len() == 3 && "url"@[0] == 'u');
            reveal_strlit("version");
            assert("version"@.len() == 7 && "version"@[0] == 'v');
            reveal_strlit("year");
            assert("year"@.len() == 4 && "year"@[0] == 'y');
            serde_date_created::lemma_date_round_trip(self.date_created);
            lemma_lookup_at(m@, "contributor"@, 0, 0);
            lemma_lookup_at(m@, "date_created"@, 1, 0);
            lemma_lookup_at(m@, "description"@, 2, 0);
            lemma_lookup_at(m@, "url"@, 3, 0);
            lemma_lookup_at(m@, "version"@, 4, 0);
            lemma_lookup_at(m@, "year"@, 5, 0);
        }
        JsonValue::Object(m)
    }

    fn decode(v: &JsonValue) -> (r: Result<Info, SchemaError>) {
        let contributor = read_text(v, "contributor")?;
        let date_created = match member(v, "date_created") {
            None => return Err(missing("date_created")),
            Some(x) => match serde_date_created::deserialize(x) {
                Ok(d) => d,
                Err(p) => return Err(field_error("date_created", p)),
            },
        };
        let description = read_text(v, "description")?;
        let url = read_url(v, "url")?;
        let version = read_text(v, "version")?;
        let year = read_usize(v, "year")?;
        Ok(Info { contributor, date_created, description, url, version, year })
    }
}

impl Record for Image {
    open spec fn problem(v: JsonValue) -> Option<(Seq<char>, FieldProblem)> {
        check(
            "id"@,
            usize_member(v, "id"@),
            check(
                "license"@,
                usize_member(v, "license"@),
                check(
                    "height"@,
                    usize_member(v, "height"@),
                    check(
                        "width"@,
                        usize_member(v, "width"@),
                        check(
                            "date_captured"@,
                            date_time_member(v, "date_captured"@),
                            check(
                                "file_name"@,
                                text_member(v, "file_name"@),
                                check(
                                    "coco_url"@,
                                    url_member(v, "coco_url"@),
                                    check("flickr_url"@, url_member(v, "flickr_url"@), None),
                                ),
                            ),
                        ),
                    ),
                ),
            ),
        )
    }

    open spec fn matches(v: JsonValue, x: Image) -> bool {
        &&& usize_member(v, "id"@) == Ok::<usize, FieldProblem>(x.id)
        &&& usize_member(v, "license"@) == Ok::<usize, FieldProblem>(x.license)
        &&& usize_member(v, "height"@) == Ok::<usize, FieldProblem>(x.height)
        &&& usize_member(v, "width"@) == Ok::<usize, FieldProblem>(x.width)
        &&& date_time_member(v, "date_captured"@) == Ok::<DateTime, FieldProblem>(x.date_captured)
        &&& text_member(v, "file_name"@) == Ok::<Seq<char>, FieldProblem>(x.file_name@)
        &&& url_member(v, "coco_url"@) == Ok::<Seq<char>, FieldProblem>(x.coco_url@)
        &&& url_member(v, "flickr_url"@) == Ok::<Seq<char>, FieldProblem>(x.flickr_url@)
    }

    open spec fn valid(&self) -> bool {
        self.date_captured.wf() && self.coco_url.is_canonical() && self.flickr_url.is_canonical()
    }

    fn encode(&self) -> (r: JsonValue) {
        let mut m: Vec<(String, JsonValue)> = Vec::new();
        m.push(("id".to_owned(), usize_value(self.id)));
        m.push(("license".to_owned(), usize_value(self.license)));
        m.push(("height".to_owned(), usize_value(self.height)));
        m.push(("width".to_owned(), usize_value(self.width)));
        m.push(("date_captured".to_owned(), serde_date_captured::serialize(&self.date_captured)));
        m.push(("file_name".to_owned(), JsonValue::Str(self.file_name.clone())));
        m.push(("coco_url".to_owned(), serde_url::serialize(&self.coco_url)));
        m.push(("flickr_url".to_owned(), serde_url::serialize(&self.flickr_url)));
        proof {
            reveal_strlit("id");
            assert("id"@.len() == 2 && "id"@[0] == 'i');
            reveal_strlit("license");
            assert("license"@.len() == 7 && "license"@[0] == 'l');
            reveal_strlit("height");
            assert("height"@.len() == 6 && "height"@[0] == 'h');
            reveal_strlit("width");
            assert("width"@.len() == 5 && "width"@[0] == 'w');
            reveal_strlit("date_captured");
            assert("date_captured"@.len() == 13 && "date_captured"@[0] == 'd');
            reveal_strlit("file_name");
            assert("file_name"@.len() == 9 && "file_name"@[0] == 'f');
            reveal_strlit("coco_url");
            assert("coco_url"@.len() == 8 && "coco_url"@[0] == 'c');
            reveal_strlit("flickr_url");
            assert("flickr_url"@.len() == 10 && "flickr_url"@[0] == 'f');
            serde_date_captured::lemma_date_time_round_trip(self.date_captured);
            lemma_lookup_at(m@, "id"@, 0, 0);
            lemma_lookup_at(m@, "license"@, 1, 0);
            lemma_lookup_at(m@, "height"@, 2, 0);
            lemma_lookup_at(m@, "width"@, 3, 0);
            lemma_lookup_at(m@, "date_captured"@, 4, 0);
            lemma_lookup_at(m@, "file_name"@, 5, 0);
            lemma_lookup_at(m@, "coco_url"@, 6, 0);
            lemma_lookup_at(m@, "flickr_url"@, 7, 0);
        }
        JsonValue::Object(m)
    }

    fn decode(v: &JsonValue) -> (r: Result<Image, SchemaError>) {
        let id = read_usize(v, "id")?;
        let license = read_usize(v, "license")?;
        let height = read_usize(v, "height")?;
        let width = read_usize(v, "width")?;
        let date_captured = match member(v, "date_captured") {
            None => return Err(missing("date_captured")),
            Some(x) => match serde_date_captured::deserialize(x) {
                Ok(t) => t,
                Err(p) => return Err(field_error("date_captured", p)),
            },
        };
        let file_name = read_text(v, "file_name")?;
        let coco_url = read_url(v, "coco_url")?;
        let flickr_url = read_url(v, "flickr_url")?;
        Ok(Image { id, license, height, width, date_captured, file_name, coco_url, flickr_url })
    }
}

impl Record for Annotation {
    open spec fn problem(v: JsonValue) -> Option<(Seq<char>, FieldProblem)> {
        check(
            "area"@,
            real_member(v, "area"@),
            check(
                "bbox"@,
                bbox_ok(v, "bbox"@),
                check(
                    "category_id"@,
                    usize_member(v, "category_id"@),
                    check(
                        "id"@,
                        usize_member(v, "id"@),
                        check(
                            "image_id"@,
                            usize_member(v, "image_id"@),
                            check(
                                "iscrowd"@,
                                flag_member(v, "iscrowd"@),
                                check("segmentation"@, segmentation_member(v, "segmentation"@), None),
                            ),
                        ),
                    ),
                ),
            ),
        )
    }

    open spec fn matches(v: JsonValue, x: Annotation) -> bool {
        &&& real_member(v, "area"@) == Ok::<Real, FieldProblem>(x.area)
        &&& lookup(v, "bbox"@) matches Some(b) && array_items(b) matches Some(bs) && reals_match(bs, x.bbox@)
        &&& usize_member(v, "category_id"@) == Ok::<usize, FieldProblem>(x.category_id)
        &&& usize_member(v, "id"@) == Ok::<usize, FieldProblem>(x.id)
        &&& usize_member(v, "image_id"@) == Ok::<usize, FieldProblem>(x.image_id)
        &&& flag_member(v, "iscrowd"@) == Ok::<bool, FieldProblem>(x.iscrowd)
        &&& lookup(v, "segmentation"@) matches Some(s) && segmentation_matches(s, x.segmentation)
    }

    open spec fn valid(&self) -> bool {
        &&& self.area.wf()
        &&& forall|i: int| 0 <= i < 4 ==> (#[trigger] self.bbox@[i]).wf()
        &&& segmentation_valid(self.segmentation)
    }

    fn encode(&self) -> (r: JsonValue) {
        let mut b: Vec<Real> = Vec::new();
        b.push(self.bbox[0]);
        b.push(self.bbox[1]);
        b.push(self.bbox[2]);
        b.push(self.bbox[3]);
        assert(b@ =~= self.bbox@);
        let bbox = real_values(&b);
        let mut m: Vec<(String, JsonValue)> = Vec::new();
        m.push(("area".to_owned(), real_value(self.area)));
        m.push(("bbox".to_owned(), JsonValue::Array(bbox)));
        m.push(("category_id".to_owned(), usize_value(self.category_id)));
        m.push(("id".to_owned(), usize_value(self.id)));
        m.push(("image_id".to_owned(), usize_value(self.image_id)));
        m.push(("iscrowd".to_owned(), serde_iscrowd::serialize(self.iscrowd)));
        m.push(("segmentation".to_owned(), encode_segmentation(&self.segmentation)));
        proof {
            reveal_strlit("area");
            assert("area"@.len() == 4 && "area"@[0] == 'a');
            reveal_strlit("bbox");
            assert("bbox"@.len() == 4 && "bbox"@[0] == 'b');
            reveal_strlit("category_id");
            assert("category_id"@.len() == 11 && "category_id"@[0] == 'c');
            reveal_strlit("id");
            assert("id"@.len() == 2 && "id"@[0] == 'i');
            reveal_strlit("image_id");
            assert("image_id"@.len() == 8 && "image_id"@[0] == 'i');
            reveal_strlit("iscrowd");
            assert("iscrowd"@.len() == 7 && "iscrowd"@[0] == 'i');
            reveal_strlit("segmentation");
            assert("segmentation"@.len() == 12 && "segmentation"@[0] == 's');
            lemma_lookup_at(m@, "area"@, 0, 0);
            lemma_lookup_at(m@, "bbox"@, 1, 0);
            lemma_lookup_at(m@, "category_id"@, 2, 0);
            lemma_lookup_at(m@, "id"@, 3, 0);
            lemma_lookup_at(m@, "image_id"@, 4, 0);
            lemma_lookup_at(m@, "iscrowd"@, 5, 0);
            lemma_lookup_at(m@, "segmentation"@, 6, 0);
        }
        JsonValue::Object(m)
    }

    fn decode(v: &JsonValue) -> (r: Result<Annotation, SchemaError>) {
        let area = match member(v, "area") {
            None => return Err(missing("area")),
            Some(JsonValue::Number(n)) => match n.double_bits {
                Some(b) => match Real::from_bits(b) {
                    Some(x) => x,
                    None => return Err(field_error("area", FieldProblem::Invalid)),
                },
                None => return Err(field_error("area", FieldProblem::Invalid)),
            },
            Some(_) => return Err(field_error("area", FieldProblem::WrongType)),
        };
        let bbox = match member(v, "bbox") {
            None => return Err(missing("bbox")),
            Some(JsonValue::Array(items)) => {
                if items.len() != 4 {
                    return Err(field_error("bbox", FieldProblem::Invalid));
                }
                match read_reals(items) {
                    Some(b) => {
                        let bbox = [b[0], b[1], b[2], b[3]];
                        proof {
                            assert(bbox@ =~= b@);
                        }
                        bbox
                    },
                    None => return Err(field_error("bbox", FieldProblem::Invalid)),
                }
            },
            Some(_) => return Err(field_error("bbox", FieldProblem::WrongType)),
        };
        let category_id = read_usize(v, "category_id")?;
        let id = read_usize(v, "id")?;
        let image_id = read_usize(v, "image_id")?;
        let iscrowd = match member(v, "iscrowd") {
            None => return Err(missing("iscrowd")),
            Some(x) => match serde_iscrowd::deserialize(x) {
                Ok(b) => b,
                Err(p) => return Err(field_error("iscrowd", p)),
            },
        };
        let segmentation = match member(v, "segmentation") {
            None => return Err(missing("segmentation")),
            Some(x) => match decode_segmentation(x) {
                Some(s) => s,
                None => return Err(field_error("segmentation", FieldProblem::WrongType)),
            },
        };
        Ok(Annotation { area, bbox, category_id, id, image_id, iscrowd, segmentation })
    }
}

/// The first problem among two, in order.
pub open spec fn chain(
    first: Option<(Seq<char>, FieldProblem)>,
    rest: Option<(Seq<char>, FieldProblem)>,
) -> Option<(Seq<char>, FieldProblem)> {
    if first is Some {
        first
    } else {
        rest
    }
}

/// A problem of a nested record, with its field named under `key`.
pub open spec fn nested(key: Seq<char>, inner: Option<(Seq<char>, FieldProblem)>) -> Option<(Seq<char>, FieldProblem)> {
    match inner {
        Some((f, p)) => Some((key + "."@ + f, p)),
        None => None,
    }
}

/// The problem of the first record, from position `i` on, that cannot be decoded.
pub open spec fn first_problem<T: Record>(items: Seq<JsonValue>, i: int) -> Option<(Seq<char>, FieldProblem)>
    decreases items.len() - i,
{
    if i < 0 || i >= items.len() {
        None
    } else if T::problem(items[i]) is Some {
        T::problem(items[i])
    } else {
        first_problem::<T>(items, i + 1)
    }
}

/// Reading member `key` of `v` as a list of records.
pub open spec fn list_problem<T: Record>(v: JsonValue, key: Seq<char>) -> Option<(Seq<char>, FieldProblem)> {
    match lookup(v, key) {
        None => Some((key, FieldProblem::Missing)),
        Some(x) => match array_items(x) {
            None => Some((key, FieldProblem::WrongType)),
            Some(items) => nested(key, first_problem::<T>(items, 0)),
        },
    }
}

/// Whether `xs` holds, in order, the records that each item of `items` reads as.
pub open spec fn all_match<T: Record>(items: Seq<JsonValue>, xs: Seq<T>) -> bool {
    items.len() == xs.len() && forall|i: int| 0 <= i < items.len() ==> #[trigger] T::matches(items[i], xs[i])
}

pub open spec fn list_matches<T: Record>(v: JsonValue, key: Seq<char>, xs: Seq<T>) -> bool {
    lookup(v, key) matches Some(x) && array_items(x) matches Some(items) && all_match(items, xs)
}

/// Reading member `key` of `v` as one record.
pub open spec fn record_problem<T: Record>(v: JsonValue, key: Seq<char>) -> Option<(Seq<char>, FieldProblem)> {
    match lookup(v, key) {
        None => Some((key, FieldProblem::Missing)),
        Some(x) => nested(key, T::problem(x)),
    }
}

fn nested_error(key: &str, e: SchemaError) -> (r: SchemaError)
    ensures
        r.field@ == key@ + "."@ + e.field@,
        r.problem == e.problem,
{
    let mut field = key.to_owned();
    field.append(".");
    field.append(e.field.as_str());
    SchemaError { field, problem: e.problem }
}

/// Decodes each item of a list as a record, stopping at the first that fails.
pub fn decode_list<T: Record>(items: &Vec<JsonValue>) -> (r: Result<Vec<T>, SchemaError>)
    ensures
        r is Ok <==> first_problem::<T>(items@, 0) is None,
        r matches Ok(xs) ==> all_match(items@, xs@),
        r matches Err(e) ==> first_problem::<T>(items@, 0) == Some((e.field@, e.problem)),
{
    let mut out: Vec<T> = Vec::new();
    let mut i: usize = 0;
    while i < items.len()
        invariant
            i <= items@.len(),
            out@.len() == i,
            first_problem::<T>(items@, 0) == first_problem::<T>(items@, i as int),
            forall|j: int| 0 <= j < i ==> #[trigger] T::matches(items@[j], out@[j]),
        decreases items@.len() - i,
    {
        let x = T::decode(&items[i])?;
        out.push(x);
        i = i + 1;
    }
    Ok(out)
}

/// Reads member `key` of `v` as a list of records.
pub fn read_list<T: Record>(v: &JsonValue, key: &str) -> (r: Result<Vec<T>, SchemaError>)
    ensures
        r is Ok <==> list_problem::<T>(*v, key@) is None,
        r matches Ok(xs) ==> list_matches(*v, key@, xs@),
        r matches Err(e) ==> list_problem::<T>(*v, key@) == Some((e.field@, e.problem)),
{
    match member(v, key) {
        None => Err(missing(key)),
        Some(JsonValue::Array(items)) => match decode_list(items) {
            Ok(xs) => Ok(xs),
            Err(e) => Err(nested_error(key, e)),
        },
        Some(_) => Err(field_error(key, FieldProblem::WrongType)),
    }
}

/// Reads member `key` of `v` as one record.
pub fn read_record<T: Record>(v: &JsonValue, key: &str) -> (r: Result<T, SchemaError>)
    ensures
        r is Ok <==> record_problem::<T>(*v, key@) is None,
        r matches Ok(x) ==> lookup(*v, key@) matches Some(m) && T::matches(m, x),
        r matches Err(e) ==> record_problem::<T>(*v, key@) == Some((e.field@, e.problem)),
{
    match member(v, key) {
        None => Err(missing(key)),
        Some(m) => match T::decode(m) {
            Ok(x) => Ok(x),
            Err(e) => Err(nested_error(key, e)),
        },
    }
}

impl Record for Instances {
    open spec fn problem(v: JsonValue) -> Option<(Seq<char>, FieldProblem)> {
        chain(
            list_problem::<Annotation>(v, "annotations"@),
            chain(
                list_problem::<Category>(v, "categories"@),
                chain(
                    list_problem::<Image>(v, "images"@),
                    chain(record_problem::<Info>(v, "info"@), list_problem::<License>(v, "licenses"@)),
                ),
            ),
        )
    }

    open spec fn matches(v: JsonValue, x: Instances) -> bool {
        &&& list_matches(v, "annotations"@, x.annotations@)
        &&& list_matches(v, "categories"@, x.categories@)
        &&& list_matches(v, "images"@, x.images@)
        &&& lookup(v, "info"@) matches Some(m) && Info::matches(m, x.info)
        &&& list_matches(v, "licenses"@, x.licenses@)
    }

    open spec fn valid(&self) -> bool {
        &&& forall|i: int| 0 <= i < self.annotations@.len() ==> (#[trigger] self.annotations@[i]).valid()
        &&& forall|i: int| 0 <= i < self.categories@.len() ==> (#[trigger] self.categories@[i]).valid()
        &&& forall|i: int| 0 <= i < self.images@.len() ==> (#[trigger] self.images@[i]).valid()
        &&& self.info.valid()
        &&& forall|i: int| 0 <= i < self.licenses@.len() ==> (#[trigger] self.licenses@[i]).valid()
    }

    fn encode(&self) -> (r: JsonValue) {
        let mut m: Vec<(String, JsonValue)> = Vec::new();
        m.push(("annotations".to_owned(), JsonValue::Array(encode_list(&self.annotations))));
        m.push(("categories".to_owned(), JsonValue::Array(encode_list(&self.categories))));
        m.push(("images".to_owned(), JsonValue::Array(encode_list(&self.images))));
        m.push(("info".to_owned(), self.info.encode()));
        m.push(("licenses".to_owned(), JsonValue::Array(encode_list(&self.licenses))));
        proof {
            reveal_strlit("annotations");
            assert("annotations"@.len() == 11 && "annotations"@[0] == 'a');
            reveal_strlit("categories");
            assert("categories"@.len() == 10 && "categories"@[0] == 'c');
            reveal_strlit("images");
            assert("images"@.len() == 6 && "images"@[0] == 'i');
            reveal_strlit("info");
            assert("info"@.len() == 4 && "info"@[0] == 'i');
            reveal_strlit("licenses");
            assert("licenses"@.len() == 8 && "licenses"@[0] == 'l');
            lemma_lookup_at(m@, "annotations"@, 0, 0);
            lemma_lookup_at(m@, "categories"@, 1, 0);
            lemma_lookup_at(m@, "images"@, 2, 0);
            lemma_lookup_at(m@, "info"@, 3, 0);
            lemma_lookup_at(m@, "licenses"@, 4, 0);
        }
        JsonValue::Object(m)
    }

    fn decode(v: &JsonValue) -> (r: Result<Instances, SchemaError>) {
        let annotations = read_list(v, "annotations")?;
        let categories = read_list(v, "categories")?;
        let images = read_list(v, "images")?;
        let info = read_record(v, "info")?;
        let licenses = read_list(v, "licenses")?;
        Ok(Instances { annotations, categories, images, info, licenses })
    }
}

/// A document that lacks one of the five top-level lists or the info record is rejected.
pub proof fn lemma_missing_member_rejected(v: JsonValue, key: Seq<char>)
    requires
        key == "annotations"@ || key == "categories"@ || key == "images"@ || key == "info"@ || key
            == "licenses"@,
        lookup(v, key) is None,
    ensures
        Instances::problem(v) is Some,
{
}

} // verus!
