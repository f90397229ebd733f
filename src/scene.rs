use vstd::prelude::*;
use crate::json::{
    field_models, json_view, lemma_array_view, lemma_object_view, models, JsonModel, JsonValue,
};
use crate::settings::{
    count_of, lexeme_to_u32, light_type_named, lower_of, output_fold, output_view, parse_light_type,
    read_output, LightType, Output, OutputModel,
};
use crate::text::trimmed;

verus! {

/// Why a scene document cannot be read.
#[derive(Debug, Clone, Copy, PartialEq, Eq, Structural)]
pub enum SceneError {
    /// The document has no `scene` object.
    MissingScene,
    /// The document has no `output` object.
    MissingOutput,
    /// A field that needs three numbers holds no array of at least three items.
    BadTriplet,
    /// A material has no `id`.
    MissingMaterialId,
    /// A light names a type other than `point` or `sphere`.
    UnknownLightType,
}

/// Whether a reader's result `r` is, through `view`, the outcome `expected`.
pub open spec fn outcome_matches<D, M>(
    r: Result<D, SceneError>,
    view: spec_fn(D) -> M,
    expected: Result<M, SceneError>,
) -> bool {
    match r {
        Ok(d) => expected == Ok::<M, SceneError>(view(d)),
        Err(e) => expected == Err::<M, SceneError>(e),
    }
}

/// A field of an object: its name and its value.
pub type Field = (Seq<char>, JsonModel);

/// The fields of an object, in order.
pub type Fields = Seq<Field>;

/// Three number lexemes: a point, a direction, a scale or a colour.
#[derive(Debug, PartialEq)]
pub struct Triplet {
    pub x: String,
    pub y: String,
    pub z: String,
}

pub type TripletModel = (Seq<char>, Seq<char>, Seq<char>);

pub open spec fn triplet_view(t: Triplet) -> TripletModel {
    (t.x@, t.y@, t.z@)
}

/// The lexeme of a number item, `0` for an item of another kind.
pub open spec fn lexeme_or_zero(m: JsonModel) -> Seq<char> {
    match m {
        JsonModel::Number(t) => t,
        _ => "0"@,
    }
}

/// The first three items of an array, as lexemes.
pub open spec fn triplet_spec(m: JsonModel) -> Result<TripletModel, SceneError> {
    match m {
        JsonModel::Array(items) => if items.len() >= 3 {
            Ok((lexeme_or_zero(items[0]), lexeme_or_zero(items[1]), lexeme_or_zero(items[2])))
        } else {
            Err(SceneError::BadTriplet)
        },
        _ => Err(SceneError::BadTriplet),
    }
}

pub open spec fn triplet_result_view(r: Result<Triplet, SceneError>) -> Result<
    TripletModel,
    SceneError,
> {
    match r {
        Ok(t) => Ok(triplet_view(t)),
        Err(e) => Err(e),
    }
}

fn lexeme_item(v: &JsonValue) -> (r: String)
    ensures
        r@ == lexeme_or_zero(json_view(*v)),
{
    match v {
        JsonValue::Number(t) => t.clone(),
        _ => String::from_str("0"),
    }
}

/// Reads three numbers (see `triplet_spec`).
fn try_read_number_triplet(array: &JsonValue) -> (r: Result<Triplet, SceneError>)
    ensures
        triplet_result_view(r) == triplet_spec(json_view(*array)),
{
    match array {
        JsonValue::Array(values) => {
            proof {
                lemma_array_view(*values);
            }
            if values.len() < 3 {
                return Err(SceneError::BadTriplet);
            }
            Ok(Triplet { x: lexeme_item(&values[0]), y: lexeme_item(&values[1]), z: lexeme_item(&values[2]) })
        },
        _ => Err(SceneError::BadTriplet),
    }
}

pub open spec fn triplet_of(x: &str, y: &str, z: &str) -> TripletModel {
    (x@, y@, z@)
}

fn make_triplet(x: &str, y: &str, z: &str) -> (r: Triplet)
    ensures
        triplet_view(r) == triplet_of(x, y, z),
{
    Triplet { x: String::from_str(x), y: String::from_str(y), z: String::from_str(z) }
}

pub open spec fn string_opt_view(o: Option<String>) -> Option<Seq<char>> {
    match o {
        Some(s) => Some(s@),
        None => None,
    }
}

/// A material as a document states it, numbers as lexemes.
pub struct MaterialDesc {
    pub id: String,
    pub color: Triplet,
    pub reflect: String,
    pub refract: String,
    pub ior: String,
    pub roughness: String,
}

pub struct MaterialModel {
    pub id: Option<Seq<char>>,
    pub color: TripletModel,
    pub reflect: Seq<char>,
    pub refract: Seq<char>,
    pub ior: Seq<char>,
    pub roughness: Seq<char>,
}

pub open spec fn material_view(d: MaterialDesc) -> MaterialModel {
    MaterialModel {
        id: Some(d.id@),
        color: triplet_view(d.color),
        reflect: d.reflect@,
        refract: d.refract@,
        ior: d.ior@,
        roughness: d.roughness@,
    }
}

/// A material before its fields: black, no reflection or refraction, index
/// of refraction 1, roughness 0.001, and no id yet.
pub open spec fn material_default() -> MaterialModel {
    MaterialModel {
        id: None,
        color: triplet_of("0", "0", "0"),
        reflect: "0"@,
        refract: "0"@,
        ior: "1"@,
        roughness: "0.001"@,
    }
}

/// One field of a material applied; fields of another name or kind change nothing.
pub open spec fn material_step(m: MaterialModel, f: Field) -> Result<
    MaterialModel,
    SceneError,
> {
    if f.0 == "id"@ {
        match f.1 {
            JsonModel::Text(t) => Ok(MaterialModel { id: Some(t), ..m }),
            _ => Ok(m),
        }
    } else if f.0 == "color"@ {
        match triplet_spec(f.1) {
            Ok(t) => Ok(MaterialModel { color: t, ..m }),
            Err(e) => Err(e),
        }
    } else if f.0 == "refract"@ {
        match f.1 {
            JsonModel::Number(t) => Ok(MaterialModel { refract: t, ..m }),
            _ => Ok(m),
        }
    } else if f.0 == "reflect"@ {
        match f.1 {
            JsonModel::Number(t) => Ok(MaterialModel { reflect: t, ..m }),
            _ => Ok(m),
        }
    } else if f.0 == "ior"@ {
        match f.1 {
            JsonModel::Number(t) => Ok(MaterialModel { ior: t, ..m }),
            _ => Ok(m),
        }
    } else if f.0 == "roughness"@ {
        match f.1 {
            JsonModel::Number(t) => Ok(MaterialModel { roughness: t, ..m }),
            _ => Ok(m),
        }
    } else {
        Ok(m)
    }
}

/// Fields applied in order from `init` by `step`; the first error stops.
pub open spec fn fold_fields<M>(
    fields: Fields,
    init: M,
    step: spec_fn(M, Field) -> Result<M, SceneError>,
) -> Result<M, SceneError>
    decreases fields.len(),
{
    if fields.len() == 0 {
        Ok(init)
    } else {
        match fold_fields(fields.drop_last(), init, step) {
            Ok(m) => step(m, fields.last()),
            Err(e) => Err(e),
        }
    }
}

/// An error in a prefix of the fields is the error of the whole.
pub proof fn lemma_fold_fields_error<M>(
    fields: Fields,
    init: M,
    step: spec_fn(M, Field) -> Result<M, SceneError>,
    k: int,
)
    requires
        0 <= k <= fields.len(),
        fold_fields(fields.take(k), init, step) is Err,
    ensures
        fold_fields(fields, init, step) == fold_fields(fields.take(k), init, step),
    decreases fields.len() - k,
{
    if k < fields.len() {
        assert(fields.take(k + 1).drop_last() =~= fields.take(k));
        lemma_fold_fields_error(fields, init, step, k + 1);
    } else {
        assert(fields.take(k) =~= fields);
    }
}

pub open spec fn material_steps() -> spec_fn(MaterialModel, Field) -> Result<
    MaterialModel,
    SceneError,
> {
    |m: MaterialModel, f: Field| material_step(m, f)
}

pub open spec fn material_fold(fields: Fields) -> Result<
    MaterialModel,
    SceneError,
> {
    fold_fields(fields, material_default(), material_steps())
}

/// A material object: its fields in order, the first bad one an error, and
/// an id required.
pub open spec fn material_spec(fields: Fields) -> Result<
    MaterialModel,
    SceneError,
> {
    match material_fold(fields) {
        Ok(m) => if m.id is Some {
            Ok(m)
        } else {
            Err(SceneError::MissingMaterialId)
        },
        Err(e) => Err(e),
    }
}

fn read_material(fields: &Vec<(String, JsonValue)>) -> (r: Result<MaterialDesc, SceneError>)
    ensures
        outcome_matches(
            r,
            |d: MaterialDesc| material_view(d),
            material_spec(field_models(fields@)),
        ),
{
    let ghost fm = field_models(fields@);
    let mut id: Option<String> = None;
    let mut color = make_triplet("0", "0", "0");
    let mut reflect = String::from_str("0");
    let mut refract = String::from_str("0");
    let mut ior = String::from_str("1");
    let mut roughness = String::from_str("0.001");
    let k_id = String::from_str("id");
    let k_color = String::from_str("color");
    let k_refract = String::from_str("refract");
    let k_reflect = String::from_str("reflect");
    let k_ior = String::from_str("ior");
    let k_roughness = String::from_str("roughness");
    let mut i: usize = 0;
    assert(fm.take(0) =~= Seq::<Field>::empty());
    while i < fields.len()
        invariant
            fm == field_models(fields@),
            i <= fields.len(),
            k_id@ == "id"@,
            k_color@ == "color"@,
            k_refract@ == "refract"@,
            k_reflect@ == "reflect"@,
            k_ior@ == "ior"@,
            k_roughness@ == "roughness"@,
            material_fold(fm.take(i as int)) == Ok::<MaterialModel, SceneError>(
                MaterialModel {
                    id: string_opt_view(id),
                    color: triplet_view(color),
                    reflect: reflect@,
                    refract: refract@,
                    ior: ior@,
                    roughness: roughness@,
                },
            ),
        decreases fields.len() - i,
    {
        let f = &fields[i];
        assert(fm.take(i + 1).drop_last() =~= fm.take(i as int));
        if f.0 == k_id {
            if let JsonValue::String(t) = &f.1 {
                id = Some(t.clone());
            }
        } else if f.0 == k_color {
            match try_read_number_triplet(&f.1) {
                Ok(t) => {
                    color = t;
                },
                Err(e) => {
                    proof {
                        lemma_fold_fields_error(fm, material_default(), material_steps(), i as int + 1);
                    }
                    return Err(e);
                },
            }
        } else if f.0 == k_refract {
            if let JsonValue::Number(t) = &f.1 {
                refract = t.clone();
            }
        } else if f.0 == k_reflect {
            if let JsonValue::Number(t) = &f.1 {
                reflect = t.clone();
            }
        } else if f.0 == k_ior {
            if let JsonValue::Number(t) = &f.1 {
                ior = t.clone();
            }
        } else if f.0 == k_roughness {
            if let JsonValue::Number(t) = &f.1 {
                roughness = t.clone();
            }
        }
        i = i + 1;
    }
    assert(fm.take(i as int) =~= fm);
    match id {
        Some(id) => Ok(MaterialDesc { id, color, reflect, refract, ior, roughness }),
        None => Err(SceneError::MissingMaterialId),
    }
}

/// The objects of an array read in order by `read`; items of another kind
/// are passed over, and the first error stops.
pub open spec fn fold_items<T>(
    items: Seq<JsonModel>,
    read: spec_fn(Fields) -> Result<T, SceneError>,
) -> Result<Seq<T>, SceneError>
    decreases items.len(),
{
    if items.len() == 0 {
        Ok(Seq::empty())
    } else {
        match fold_items(items.drop_last(), read) {
            Ok(acc) => match items.last() {
                JsonModel::Object(f) => match read(f) {
                    Ok(x) => Ok(acc.push(x)),
                    Err(e) => Err(e),
                },
                _ => Ok(acc),
            },
            Err(e) => Err(e),
        }
    }
}

pub proof fn lemma_fold_items_error<T>(
    items: Seq<JsonModel>,
    read: spec_fn(Fields) -> Result<T, SceneError>,
    k: int,
)
    requires
        0 <= k <= items.len(),
        fold_items(items.take(k), read) is Err,
    ensures
        fold_items(items, read) == fold_items(items.take(k), read),
    decreases items.len() - k,
{
    if k < items.len() {
        assert(items.take(k + 1).drop_last() =~= items.take(k));
        lemma_fold_items_error(items, read, k + 1);
    } else {
        assert(items.take(k) =~= items);
    }
}

pub open spec fn material_reads() -> spec_fn(Fields) -> Result<
    MaterialModel,
    SceneError,
> {
    |f: Fields| material_spec(f)
}

pub open spec fn materials_view(v: Seq<MaterialDesc>) -> Seq<MaterialModel> {
    v.map_values(|d: MaterialDesc| material_view(d))
}

/// Reads the materials of an array.
fn try_read_materials(values: &Vec<JsonValue>) -> (r: Result<Vec<MaterialDesc>, SceneError>)
    ensures
        outcome_matches(
            r,
            |v: Vec<MaterialDesc>| materials_view(v@),
            fold_items(models(values@), material_reads()),
        ),
{
    let ghost ms = models(values@);
    let mut result: Vec<MaterialDesc> = Vec::new();
    let mut i: usize = 0;
    assert(ms.take(0) =~= Seq::<JsonModel>::empty());
    assert(materials_view(result@) =~= Seq::empty());
    while i < values.len()
        invariant
            ms == models(values@),
            i <= values.len(),
            fold_items(ms.take(i as int), material_reads()) == Ok::<
                Seq<MaterialModel>,
                SceneError,
            >(materials_view(result@)),
        decreases values.len() - i,
    {
        assert(ms.take(i + 1).drop_last() =~= ms.take(i as int));
        assert(ms[i as int] == json_view(values@[i as int]));
        if let JsonValue::Object(fields) = &values[i] {
            proof {
                lemma_object_view(*fields);
            }
            match read_material(fields) {
                Ok(d) => {
                    let ghost before = result@;
                    result.push(d);
                    assert(materials_view(result@) =~= materials_view(before).push(
                        material_view(d),
                    ));
                },
                Err(e) => {
                    proof {
                        lemma_fold_items_error(ms, material_reads(), i as int + 1);
                    }
                    return Err(e);
                },
            }
        }
        i = i + 1;
    }
    assert(ms.take(i as int) =~= ms);
    Ok(result)
}

/// A sphere as a document states it, numbers as lexemes.
pub struct SphereDesc {
    pub center: Triplet,
    pub radius: String,
    pub material: String,
}

pub struct SphereModel {
    pub center: TripletModel,
    pub radius: Seq<char>,
    pub material: Seq<char>,
}

pub open spec fn sphere_view(d: SphereDesc) -> SphereModel {
    SphereModel {
        center: triplet_view(d.center),
        radius: d.radius@,
        material: d.material@,
    }
}

/// A sphere before its fields: at the origin, radius 1, material `_default`.
pub open spec fn sphere_default() -> SphereModel {
    SphereModel {
        center: triplet_of("0", "0", "0"),
        radius: "1"@,
        material: "_default"@,
    }
}

/// One field applied; fields of another name or kind change nothing.
pub open spec fn sphere_step(m: SphereModel, f: Field) -> Result<SphereModel, SceneError> {
    if f.0 == "center"@ {
        match triplet_spec(f.1) {
            Ok(t) => Ok(SphereModel { center: t, ..m }),
            Err(e) => Err(e),
        }
    } else if f.0 == "radius"@ {
        match f.1 {
            JsonModel::Number(t) => Ok(SphereModel { radius: t, ..m }),
            _ => Ok(m),
        }
    } else if f.0 == "material"@ {
        match f.1 {
            JsonModel::Text(t) => Ok(SphereModel { material: t, ..m }),
            _ => Ok(m),
        }
    } else {
        Ok(m)
    }
}

pub open spec fn sphere_steps() -> spec_fn(SphereModel, Field) -> Result<SphereModel, SceneError> {
    |m: SphereModel, f: Field| sphere_step(m, f)
}

pub open spec fn sphere_reads() -> spec_fn(Fields) -> Result<SphereModel, SceneError> {
    |f: Fields| fold_fields(f, sphere_default(), sphere_steps())
}

pub open spec fn spheres_view(v: Seq<SphereDesc>) -> Seq<SphereModel> {
    v.map_values(|d: SphereDesc| sphere_view(d))
}

fn read_sphere(fields: &Vec<(String, JsonValue)>) -> (r: Result<SphereDesc, SceneError>)
    ensures
        outcome_matches(
            r,
            |d: SphereDesc| sphere_view(d),
            fold_fields(field_models(fields@), sphere_default(), sphere_steps()),
        ),
{
    let ghost fm = field_models(fields@);
    let mut center: Triplet = make_triplet("0", "0", "0");
    let mut radius: String = String::from_str("1");
    let mut material: String = String::from_str("_default");
    let k_center = String::from_str("center");
    let k_radius = String::from_str("radius");
    let k_material = String::from_str("material");
    let mut i: usize = 0;
    assert(fm.take(0) =~= Seq::<Field>::empty());
    while i < fields.len()
        invariant
            fm == field_models(fields@),
            i <= fields.len(),
            k_center@ == "center"@,
            k_radius@ == "radius"@,
            k_material@ == "material"@,
            fold_fields(fm.take(i as int), sphere_default(), sphere_steps()) == Ok::<SphereModel, SceneError>(
                SphereModel {
                    center: triplet_view(center),
                    radius: radius@,
                    material: material@,
                },
            ),
        decreases fields.len() - i,
    {
        let f = &fields[i];
        assert(fm.take(i + 1).drop_last() =~= fm.take(i as int));
        if f.0 == k_center {
            match try_read_number_triplet(&f.1) {
                Ok(t) => {
                    center = t;
                },
                Err(e) => {
                    proof {
                        lemma_fold_fields_error(fm, sphere_default(), sphere_steps(), i as int + 1);
                    }
                    return Err(e);
                },
            }
        } else if f.0 == k_radius {
            if let JsonValue::Number(t) = &f.1 {
                radius = t.clone();
            }
        } else if f.0 == k_material {
            if let JsonValue::String(t) = &f.1 {
                material = t.clone();
            }
        }
        i = i + 1;
    }
    assert(fm.take(i as int) =~= fm);
    Ok(SphereDesc { center, radius, material })
}

/// Reads the spheres of an array.
fn try_read_spheres(values: &Vec<JsonValue>) -> (r: Result<Vec<SphereDesc>, SceneError>)
    ensures
        outcome_matches(
            r,
            |v: Vec<SphereDesc>| spheres_view(v@),
            fold_items(models(values@), sphere_reads()),
        ),
{
    let ghost ms = models(values@);
    let mut result: Vec<SphereDesc> = Vec::new();
    let mut i: usize = 0;
    assert(ms.take(0) =~= Seq::<JsonModel>::empty());
    assert(spheres_view(result@) =~= Seq::empty());
    while i < values.len()
        invariant
            ms == models(values@),
            i <= values.len(),
            fold_items(ms.take(i as int), sphere_reads()) == Ok::<Seq<SphereModel>, SceneError>(spheres_view(result@)),
        decreases values.len() - i,
    {
        assert(ms.take(i + 1).drop_last() =~= ms.take(i as int));
        assert(ms[i as int] == json_view(values@[i as int]));
        if let JsonValue::Object(fields) = &values[i] {
            proof {
                lemma_object_view(*fields);
            }
            match read_sphere(fields) {
                Ok(d) => {
                    let ghost before = result@;
                    result.push(d);
                    assert(spheres_view(result@) =~= spheres_view(before).push(sphere_view(d)));
                },
                Err(e) => {
                    proof {
                        lemma_fold_items_error(ms, sphere_reads(), i as int + 1);
                    }
                    return Err(e);
                },
            }
        }
        i = i + 1;
    }
    assert(ms.take(i as int) =~= ms);
    Ok(result)
}

/// A mesh or voxel model placed in the scene as a document states it, numbers as lexemes.
pub struct PlacementDesc {
    pub file: Option<String>,
    pub translation: Triplet,
    pub rotation: Triplet,
    pub scale: Triplet,
    pub material: String,
}

pub struct PlacementModel {
    pub file: Option<Seq<char>>,
    pub translation: TripletModel,
    pub rotation: TripletModel,
    pub scale: TripletModel,
    pub material: Seq<char>,
}

pub open spec fn placement_view(d: PlacementDesc) -> PlacementModel {
    PlacementModel {
        file: string_opt_view(d.file),
        translation: triplet_view(d.translation),
        rotation: triplet_view(d.rotation),
        scale: triplet_view(d.scale),
        material: d.material@,
    }
}

/// A placement before its fields: no file, no translation or rotation, scale 1, no material.
pub open spec fn placement_default() -> PlacementModel {
    PlacementModel {
        file: None,
        translation: triplet_of("0", "0", "0"),
        rotation: triplet_of("0", "0", "0"),
        scale: triplet_of("1", "1", "1"),
        material: ""@,
    }
}

/// One field applied; fields of another name or kind change nothing.
pub open spec fn placement_step(m: PlacementModel, f: Field) -> Result<PlacementModel, SceneError> {
    if f.0 == "file"@ {
        match f.1 {
            JsonModel::Text(t) => Ok(PlacementModel { file: Some(t), ..m }),
            _ => Ok(m),
        }
    } else if f.0 == "translation"@ {
        match triplet_spec(f.1) {
            Ok(t) => Ok(PlacementModel { translation: t, ..m }),
            Err(e) => Err(e),
        }
    } else if f.0 == "rotation"@ {
        match triplet_spec(f.1) {
            Ok(t) => Ok(PlacementModel { rotation: t, ..m }),
            Err(e) => Err(e),
        }
    } else if f.0 == "scale"@ {
        match triplet_spec(f.1) {
            Ok(t) => Ok(PlacementModel { scale: t, ..m }),
            Err(e) => Err(e),
        }
    } else if f.0 == "material"@ {
        match f.1 {
            JsonModel::Text(t) => Ok(PlacementModel { material: t, ..m }),
            _ => Ok(m),
        }
    } else {
        Ok(m)
    }
}

pub open spec fn placement_steps() -> spec_fn(PlacementModel, Field) -> Result<PlacementModel, SceneError> {
    |m: PlacementModel, f: Field| placement_step(m, f)
}

pub open spec fn placement_reads() -> spec_fn(Fields) -> Result<PlacementModel, SceneError> {
    |f: Fields| fold_fields(f, placement_default(), placement_steps())
}

pub open spec fn placements_view(v: Seq<PlacementDesc>) -> Seq<PlacementModel> {
    v.map_values(|d: PlacementDesc| placement_view(d))
}

fn read_placement(fields: &Vec<(String, JsonValue)>) -> (r: Result<PlacementDesc, SceneError>)
    ensures
        outcome_matches(
            r,
            |d: PlacementDesc| placement_view(d),
            fold_fields(field_models(fields@), placement_default(), placement_steps()),
        ),
{
    let ghost fm = field_models(fields@);
    let mut file: Option<String> = None;
    let mut translation: Triplet = make_triplet("0", "0", "0");
    let mut rotation: Triplet = make_triplet("0", "0", "0");
    let mut scale: Triplet = make_triplet("1", "1", "1");
    let mut material: String = String::from_str("");
    let k_file = String::from_str("file");
    let k_translation = String::from_str("translation");
    let k_rotation = String::from_str("rotation");
    let k_scale = String::from_str("scale");
    let k_material = String::from_str("material");
    let mut i: usize = 0;
    assert(fm.take(0) =~= Seq::<Field>::empty());
    while i < fields.len()
        invariant
            fm == field_models(fields@),
            i <= fields.len(),
            k_file@ == "file"@,
            k_translation@ == "translation"@,
            k_rotation@ == "rotation"@,
            k_scale@ == "scale"@,
            k_material@ == "material"@,
            fold_fields(fm.take(i as int), placement_default(), placement_steps()) == Ok::<PlacementModel, SceneError>(
                PlacementModel {
                    file: string_opt_view(file),
                    translation: triplet_view(translation),
                    rotation: triplet_view(rotation),
                    scale: triplet_view(scale),
                    material: material@,
                },
            ),
        decreases fields.len() - i,
    {
        let f = &fields[i];
        assert(fm.take(i + 1).drop_last() =~= fm.take(i as int));
        if f.0 == k_file {
            if let JsonValue::String(t) = &f.1 {
                file = Some(t.clone());
            }
        } else if f.0 == k_translation {
            match try_read_number_triplet(&f.1) {
                Ok(t) => {
                    translation = t;
                },
                Err(e) => {
                    proof {
                        lemma_fold_fields_error(fm, placement_default(), placement_steps(), i as int + 1);
                    }
                    return Err(e);
                },
            }
        } else if f.0 == k_rotation {
            match try_read_number_triplet(&f.1) {
                Ok(t) => {
                    rotation = t;
                },
                Err(e) => {
                    proof {
                        lemma_fold_fields_error(fm, placement_default(), placement_steps(), i as int + 1);
                    }
                    return Err(e);
                },
            }
        } else if f.0 == k_scale {
            match try_read_number_triplet(&f.1) {
                Ok(t) => {
                    scale = t;
                },
                Err(e) => {
                    proof {
                        lemma_fold_fields_error(fm, placement_default(), placement_steps(), i as int + 1);
                    }
                    return Err(e);
                },
            }
        } else if f.0 == k_material {
            if let JsonValue::String(t) = &f.1 {
                material = t.clone();
            }
        }
        i = i + 1;
    }
    assert(fm.take(i as int) =~= fm);
    Ok(PlacementDesc { file, translation, rotation, scale, material })
}

/// Reads the placements of an array.
fn try_read_placements(values: &Vec<JsonValue>) -> (r: Result<Vec<PlacementDesc>, SceneError>)
    ensures
        outcome_matches(
            r,
            |v: Vec<PlacementDesc>| placements_view(v@),
            fold_items(models(values@), placement_reads()),
        ),
{
    let ghost ms = models(values@);
    let mut result: Vec<PlacementDesc> = Vec::new();
    let mut i: usize = 0;
    assert(ms.take(0) =~= Seq::<JsonModel>::empty());
    assert(placements_view(result@) =~= Seq::empty());
    while i < values.len()
        invariant
            ms == models(values@),
            i <= values.len(),
            fold_items(ms.take(i as int), placement_reads()) == Ok::<Seq<PlacementModel>, SceneError>(placements_view(result@)),
        decreases values.len() - i,
    {
        assert(ms.take(i + 1).drop_last() =~= ms.take(i as int));
        assert(ms[i as int] == json_view(values@[i as int]));
        if let JsonValue::Object(fields) = &values[i] {
            proof {
                lemma_object_view(*fields);
            }
            match read_placement(fields) {
                Ok(d) => {
                    let ghost before = result@;
                    result.push(d);
                    assert(placements_view(result@) =~= placements_view(before).push(placement_view(d)));
                },
                Err(e) => {
                    proof {
                        lemma_fold_items_error(ms, placement_reads(), i as int + 1);
                    }
                    return Err(e);
                },
            }
        }
        i = i + 1;
    }
    assert(ms.take(i as int) =~= ms);
    Ok(result)
}

/// A light as a document states it, numbers as lexemes.
pub struct LightDesc {
    pub ltype: LightType,
    pub position: Triplet,
    pub color: Triplet,
    pub radius: String,
    pub samples: u32,
    pub visible: bool,
    pub intensity: String,
}

pub struct LightModel {
    pub ltype: LightType,
    pub position: TripletModel,
    pub color: TripletModel,
    pub radius: Seq<char>,
    pub samples: u32,
    pub visible: bool,
    pub intensity: Seq<char>,
}

pub open spec fn light_view(d: LightDesc) -> LightModel {
    LightModel {
        ltype: d.ltype,
        position: triplet_view(d.position),
        color: triplet_view(d.color),
        radius: d.radius@,
        samples: d.samples,
        visible: d.visible,
        intensity: d.intensity@,
    }
}

/// A light before its fields: a white point light at the origin, radius 1, one sample, intensity 1, not visible.
pub open spec fn light_default() -> LightModel {
    LightModel {
        ltype: LightType::Point,
        position: triplet_of("0", "0", "0"),
        color: triplet_of("1", "1", "1"),
        radius: "1"@,
        samples: 1,
        visible: false,
        intensity: "1"@,
    }
}

/// One field applied; fields of another name or kind change nothing.
pub open spec fn light_step(m: LightModel, f: Field) -> Result<LightModel, SceneError> {
    if f.0 == "type"@ {
        match f.1 {
            JsonModel::Text(t) => match light_type_named(lower_of(trimmed(t))) {
                Some(lt) => Ok(LightModel { ltype: lt, ..m }),
                None => Err(SceneError::UnknownLightType),
            },
            _ => Ok(m),
        }
    } else if f.0 == "position"@ {
        match triplet_spec(f.1) {
            Ok(t) => Ok(LightModel { position: t, ..m }),
            Err(e) => Err(e),
        }
    } else if f.0 == "color"@ {
        match triplet_spec(f.1) {
            Ok(t) => Ok(LightModel { color: t, ..m }),
            Err(e) => Err(e),
        }
    } else if f.0 == "radius"@ {
        match f.1 {
            JsonModel::Number(t) => Ok(LightModel { radius: t, ..m }),
            _ => Ok(m),
        }
    } else if f.0 == "samples"@ {
        match f.1 {
            JsonModel::Number(t) => Ok(LightModel { samples: count_of(t), ..m }),
            _ => Ok(m),
        }
    } else if f.0 == "visible"@ {
        match f.1 {
            JsonModel::Boolean(b) => Ok(LightModel { visible: b, ..m }),
            _ => Ok(m),
        }
    } else if f.0 == "intensity"@ {
        match f.1 {
            JsonModel::Number(t) => Ok(LightModel { intensity: t, ..m }),
            _ => Ok(m),
        }
    } else {
        Ok(m)
    }
}

pub open spec fn light_steps() -> spec_fn(LightModel, Field) -> Result<LightModel, SceneError> {
    |m: LightModel, f: Field| light_step(m, f)
}

pub open spec fn light_reads() -> spec_fn(Fields) -> Result<LightModel, SceneError> {
    |f: Fields| fold_fields(f, light_default(), light_steps())
}

pub open spec fn lights_view(v: Seq<LightDesc>) -> Seq<LightModel> {
    v.map_values(|d: LightDesc| light_view(d))
}

fn read_light(fields: &Vec<(String, JsonValue)>) -> (r: Result<LightDesc, SceneError>)
    ensures
        outcome_matches(
            r,
            |d: LightDesc| light_view(d),
            fold_fields(field_models(fields@), light_default(), light_steps()),
        ),
{
    let ghost fm = field_models(fields@);
    let mut ltype: LightType = LightType::Point;
    let mut position: Triplet = make_triplet("0", "0", "0");
    let mut color: Triplet = make_triplet("1", "1", "1");
    let mut radius: String = String::from_str("1");
    let mut samples: u32 = 1;
    let mut visible: bool = false;
    let mut intensity: String = String::from_str("1");
    let k_ltype = String::from_str("type");
    let k_position = String::from_str("position");
    let k_color = String::from_str("color");
    let k_radius = String::from_str("radius");
    let k_samples = String::from_str("samples");
    let k_visible = String::from_str("visible");
    let k_intensity = String::from_str("intensity");
    let mut i: usize = 0;
    assert(fm.take(0) =~= Seq::<Field>::empty());
    while i < fields.len()
        invariant
            fm == field_models(fields@),
            i <= fields.len(),
            k_ltype@ == "type"@,
            k_position@ == "position"@,
            k_color@ == "color"@,
            k_radius@ == "radius"@,
            k_samples@ == "samples"@,
            k_visible@ == "visible"@,
            k_intensity@ == "intensity"@,
            fold_fields(fm.take(i as int), light_default(), light_steps()) == Ok::<LightModel, SceneError>(
                LightModel {
                    ltype: ltype,
                    position: triplet_view(position),
                    color: triplet_view(color),
                    radius: radius@,
                    samples: samples,
                    visible: visible,
                    intensity: intensity@,
                },
            ),
        decreases fields.len() - i,
    {
        let f = &fields[i];
        assert(fm.take(i + 1).drop_last() =~= fm.take(i as int));
        if f.0 == k_ltype {
            if let JsonValue::String(t) = &f.1 {
                match parse_light_type(t.as_str()) {
                    Some(lt) => {
                        ltype = lt;
                    },
                    None => {
                        proof {
                            lemma_fold_fields_error(fm, light_default(), light_steps(), i as int + 1);
                        }
                        return Err(SceneError::UnknownLightType);
                    },
                }
            }
        } else if f.0 == k_position {
            match try_read_number_triplet(&f.1) {
                Ok(t) => {
                    position = t;
                },
                Err(e) => {
                    proof {
                        lemma_fold_fields_error(fm, light_default(), light_steps(), i as int + 1);
                    }
                    return Err(e);
                },
            }
        } else if f.0 == k_color {
            match try_read_number_triplet(&f.1) {
                Ok(t) => {
                    color = t;
                },
                Err(e) => {
                    proof {
                        lemma_fold_fields_error(fm, light_default(), light_steps(), i as int + 1);
                    }
                    return Err(e);
                },
            }
        } else if f.0 == k_radius {
            if let JsonValue::Number(t) = &f.1 {
                radius = t.clone();
            }
        } else if f.0 == k_samples {
            if let JsonValue::Number(t) = &f.1 {
                samples = lexeme_to_u32(t);
            }
        } else if f.0 == k_visible {
            if let JsonValue::Boolean(b) = &f.1 {
                visible = *b;
            }
        } else if f.0 == k_intensity {
            if let JsonValue::Number(t) = &f.1 {
                intensity = t.clone();
            }
        }
        i = i + 1;
    }
    assert(fm.take(i as int) =~= fm);
    Ok(LightDesc { ltype, position, color, radius, samples, visible, intensity })
}

/// Reads the lights of an array.
fn try_read_lights(values: &Vec<JsonValue>) -> (r: Result<Vec<LightDesc>, SceneError>)
    ensures
        outcome_matches(
            r,
            |v: Vec<LightDesc>| lights_view(v@),
            fold_items(models(values@), light_reads()),
        ),
{
    let ghost ms = models(values@);
    let mut result: Vec<LightDesc> = Vec::new();
    let mut i: usize = 0;
    assert(ms.take(0) =~= Seq::<JsonModel>::empty());
    assert(lights_view(result@) =~= Seq::empty());
    while i < values.len()
        invariant
            ms == models(values@),
            i <= values.len(),
            fold_items(ms.take(i as int), light_reads()) == Ok::<Seq<LightModel>, SceneError>(lights_view(result@)),
        decreases values.len() - i,
    {
        assert(ms.take(i + 1).drop_last() =~= ms.take(i as int));
        assert(ms[i as int] == json_view(values@[i as int]));
        if let JsonValue::Object(fields) = &values[i] {
            proof {
                lemma_object_view(*fields);
            }
            match read_light(fields) {
                Ok(d) => {
                    let ghost before = result@;
                    result.push(d);
                    assert(lights_view(result@) =~= lights_view(before).push(light_view(d)));
                },
                Err(e) => {
                    proof {
                        lemma_fold_items_error(ms, light_reads(), i as int + 1);
                    }
                    return Err(e);
                },
            }
        }
        i = i + 1;
    }
    assert(ms.take(i as int) =~= ms);
    Ok(result)
}


/// A scene as a document states it, numbers as lexemes.
pub struct SceneDesc {
    pub materials: Vec<MaterialDesc>,
    pub spheres: Vec<SphereDesc>,
    pub meshes: Vec<PlacementDesc>,
    pub voxels: Vec<PlacementDesc>,
    pub lights: Vec<LightDesc>,
    pub skycolor: Triplet,
    pub max_depth: u32,
    pub path_samples: u32,
}

pub struct SceneModel {
    pub materials: Seq<MaterialModel>,
    pub spheres: Seq<SphereModel>,
    pub meshes: Seq<PlacementModel>,
    pub voxels: Seq<PlacementModel>,
    pub lights: Seq<LightModel>,
    pub skycolor: TripletModel,
    pub max_depth: u32,
    pub path_samples: u32,
}

pub open spec fn scene_view(d: SceneDesc) -> SceneModel {
    SceneModel {
        materials: materials_view(d.materials@),
        spheres: spheres_view(d.spheres@),
        meshes: placements_view(d.meshes@),
        voxels: placements_view(d.voxels@),
        lights: lights_view(d.lights@),
        skycolor: triplet_view(d.skycolor),
        max_depth: d.max_depth,
        path_samples: d.path_samples,
    }
}

/// A scene before its fields: empty, a black sky, trace depth 5, one path
/// sample per bounce.
pub open spec fn scene_default() -> SceneModel {
    SceneModel {
        materials: Seq::empty(),
        spheres: Seq::empty(),
        meshes: Seq::empty(),
        voxels: Seq::empty(),
        lights: Seq::empty(),
        skycolor: triplet_of("0", "0", "0"),
        max_depth: 5,
        path_samples: 1,
    }
}

/// One field of a scene applied: the sky colour, the trace depth, the path
/// samples, or an array of materials, spheres, meshes, lights or voxel
/// models, which replaces any read before.
pub open spec fn scene_step(m: SceneModel, f: Field) -> Result<SceneModel, SceneError> {
    if f.0 == "skycolor"@ {
        match triplet_spec(f.1) {
            Ok(t) => Ok(SceneModel { skycolor: t, ..m }),
            Err(e) => Err(e),
        }
    } else if f.0 == "max_trace_depth"@ {
        match f.1 {
            JsonModel::Number(t) => Ok(SceneModel { max_depth: count_of(t), ..m }),
            _ => Ok(m),
        }
    } else if f.0 == "path_samples"@ {
        match f.1 {
            JsonModel::Number(t) => Ok(SceneModel { path_samples: count_of(t), ..m }),
            _ => Ok(m),
        }
    } else {
        match f.1 {
            JsonModel::Array(items) => if f.0 == "materials"@ {
                match fold_items(items, material_reads()) {
                    Ok(v) => Ok(SceneModel { materials: v, ..m }),
                    Err(e) => Err(e),
                }
            } else if f.0 == "spheres"@ {
                match fold_items(items, sphere_reads()) {
                    Ok(v) => Ok(SceneModel { spheres: v, ..m }),
                    Err(e) => Err(e),
                }
            } else if f.0 == "meshes"@ {
                match fold_items(items, placement_reads()) {
                    Ok(v) => Ok(SceneModel { meshes: v, ..m }),
                    Err(e) => Err(e),
                }
            } else if f.0 == "lights"@ {
                match fold_items(items, light_reads()) {
                    Ok(v) => Ok(SceneModel { lights: v, ..m }),
                    Err(e) => Err(e),
                }
            } else if f.0 == "voxels"@ {
                match fold_items(items, placement_reads()) {
                    Ok(v) => Ok(SceneModel { voxels: v, ..m }),
                    Err(e) => Err(e),
                }
            } else {
                Ok(m)
            },
            _ => Ok(m),
        }
    }
}

pub open spec fn scene_steps() -> spec_fn(SceneModel, Field) -> Result<SceneModel, SceneError> {
    |m: SceneModel, f: Field| scene_step(m, f)
}

/// A scene object: its fields in order; with no trace depth there are no
/// path samples either. `MissingScene` where the value is not an object.
pub open spec fn scene_spec(v: JsonModel) -> Result<SceneModel, SceneError> {
    match v {
        JsonModel::Object(fields) => match fold_fields(fields, scene_default(), scene_steps()) {
            Ok(m) => Ok(if m.max_depth == 0 {
                SceneModel { path_samples: 0, ..m }
            } else {
                m
            }),
            Err(e) => Err(e),
        },
        _ => Err(SceneError::MissingScene),
    }
}

/// Reads a scene object (see `scene_spec`).
fn try_read_scene(scene: &JsonValue) -> (r: Result<SceneDesc, SceneError>)
    ensures
        outcome_matches(
            r,
            |d: SceneDesc| scene_view(d),
            scene_spec(json_view(*scene)),
        ),
{
    let fields = match scene {
        JsonValue::Object(fields) => fields,
        _ => {
            return Err(SceneError::MissingScene);
        },
    };
    proof {
        lemma_object_view(*fields);
    }
    let ghost fm = field_models(fields@);
    let mut materials: Vec<MaterialDesc> = Vec::new();
    let mut spheres: Vec<SphereDesc> = Vec::new();
    let mut meshes: Vec<PlacementDesc> = Vec::new();
    let mut voxels: Vec<PlacementDesc> = Vec::new();
    let mut lights: Vec<LightDesc> = Vec::new();
    let mut skycolor = make_triplet("0", "0", "0");
    let mut max_depth: u32 = 5;
    let mut path_samples: u32 = 1;
    let k_skycolor = String::from_str("skycolor");
    let k_max_depth = String::from_str("max_trace_depth");
    let k_path_samples = String::from_str("path_samples");
    let k_materials = String::from_str("materials");
    let k_spheres = String::from_str("spheres");
    let k_meshes = String::from_str("meshes");
    let k_lights = String::from_str("lights");
    let k_voxels = String::from_str("voxels");
    let mut i: usize = 0;
    assert(fm.take(0) =~= Seq::<Field>::empty());
    assert(materials_view(materials@) =~= Seq::empty());
    assert(spheres_view(spheres@) =~= Seq::empty());
    assert(placements_view(meshes@) =~= Seq::empty());
    assert(placements_view(voxels@) =~= Seq::empty());
    assert(lights_view(lights@) =~= Seq::empty());
    while i < fields.len()
        invariant
            fm == field_models(fields@),
            i <= fields.len(),
            json_view(*scene) == JsonModel::Object(fm),
            k_skycolor@ == "skycolor"@,
            k_max_depth@ == "max_trace_depth"@,
            k_path_samples@ == "path_samples"@,
            k_materials@ == "materials"@,
            k_spheres@ == "spheres"@,
            k_meshes@ == "meshes"@,
            k_lights@ == "lights"@,
            k_voxels@ == "voxels"@,
            fold_fields(fm.take(i as int), scene_default(), scene_steps()) == Ok::<
                SceneModel,
                SceneError,
            >(
                SceneModel {
                    materials: materials_view(materials@),
                    spheres: spheres_view(spheres@),
                    meshes: placements_view(meshes@),
                    voxels: placements_view(voxels@),
                    lights: lights_view(lights@),
                    skycolor: triplet_view(skycolor),
                    max_depth,
                    path_samples,
                },
            ),
        decreases fields.len() - i,
    {
        let f = &fields[i];
        assert(fm.take(i + 1).drop_last() =~= fm.take(i as int));
        if f.0 == k_skycolor {
            match try_read_number_triplet(&f.1) {
                Ok(t) => {
                    skycolor = t;
                },
                Err(e) => {
                    proof {
                        lemma_fold_fields_error(fm, scene_default(), scene_steps(), i as int + 1);
                    }
                    return Err(e);
                },
            }
        } else if f.0 == k_max_depth {
            if let JsonValue::Number(t) = &f.1 {
                max_depth = lexeme_to_u32(t);
            }
        } else if f.0 == k_path_samples {
            if let JsonValue::Number(t) = &f.1 {
                path_samples = lexeme_to_u32(t);
            }
        } else if let JsonValue::Array(values) = &f.1 {
            proof {
                lemma_array_view(*values);
            }
            if f.0 == k_materials {
                match try_read_materials(values) {
                    Ok(v) => {
                        materials = v;
                    },
                    Err(e) => {
                        proof {
                            lemma_fold_fields_error(fm, scene_default(), scene_steps(), i as int + 1);
                        }
                        return Err(e);
                    },
                }
            } else if f.0 == k_spheres {
                match try_read_spheres(values) {
                    Ok(v) => {
                        spheres = v;
                    },
                    Err(e) => {
                        proof {
                            lemma_fold_fields_error(fm, scene_default(), scene_steps(), i as int + 1);
                        }
                        return Err(e);
                    },
                }
            } else if f.0 == k_meshes {
                match try_read_placements(values) {
                    Ok(v) => {
                        meshes = v;
                    },
                    Err(e) => {
                        proof {
                            lemma_fold_fields_error(fm, scene_default(), scene_steps(), i as int + 1);
                        }
                        return Err(e);
                    },
                }
            } else if f.0 == k_lights {
                match try_read_lights(values) {
                    Ok(v) => {
                        lights = v;
                    },
                    Err(e) => {
                        proof {
                            lemma_fold_fields_error(fm, scene_default(), scene_steps(), i as int + 1);
                        }
                        return Err(e);
                    },
                }
            } else if f.0 == k_voxels {
                match try_read_placements(values) {
                    Ok(v) => {
                        voxels = v;
                    },
                    Err(e) => {
                        proof {
                            lemma_fold_fields_error(fm, scene_default(), scene_steps(), i as int + 1);
                        }
                        return Err(e);
                    },
                }
            }
        }
        i = i + 1;
    }
    assert(fm.take(i as int) =~= fm);
    if max_depth == 0 {
        path_samples = 0;
    }
    Ok(SceneDesc { materials, spheres, meshes, voxels, lights, skycolor, max_depth, path_samples })
}

/// A whole scene document: the scene and the output settings.
pub struct SettingsDesc {
    pub scene: SceneDesc,
    pub output: Output,
}

/// The scene and output read so far from the top-level fields.
pub type SettingsState = (Option<SceneModel>, Option<OutputModel>);

/// One top-level field applied: a `scene` or `output` value replaces the
/// one read before, and one that is not an object leaves none.
pub open spec fn settings_step(st: SettingsState, f: Field) -> Result<
    SettingsState,
    SceneError,
> {
    if f.0 == "scene"@ {
        match scene_spec(f.1) {
            Ok(m) => Ok((Some(m), st.1)),
            Err(SceneError::MissingScene) => Ok((None, st.1)),
            Err(e) => Err(e),
        }
    } else if f.0 == "output"@ {
        match f.1 {
            JsonModel::Object(fields) => Ok((st.0, Some(output_fold(fields)))),
            _ => Ok((st.0, None)),
        }
    } else {
        Ok(st)
    }
}

pub open spec fn settings_steps() -> spec_fn(SettingsState, Field) -> Result<
    SettingsState,
    SceneError,
> {
    |st: SettingsState, f: Field| settings_step(st, f)
}

/// A document: its top-level fields in order; it needs a scene and then an
/// output.
pub open spec fn settings_spec(v: JsonModel) -> Result<(SceneModel, OutputModel), SceneError> {
    match v {
        JsonModel::Object(fields) => match fold_fields(fields, (None, None), settings_steps()) {
            Ok((Some(sc), Some(o))) => Ok((sc, o)),
            Ok((None, _)) => Err(SceneError::MissingScene),
            Ok((Some(_), None)) => Err(SceneError::MissingOutput),
            Err(e) => Err(e),
        },
        _ => Err(SceneError::MissingScene),
    }
}

pub open spec fn scene_opt_view(o: Option<SceneDesc>) -> Option<SceneModel> {
    match o {
        Some(d) => Some(scene_view(d)),
        None => None,
    }
}

pub open spec fn output_opt_view(o: Option<Output>) -> Option<OutputModel> {
    match o {
        Some(d) => Some(output_view(d)),
        None => None,
    }
}

/// Reads a scene document (see `settings_spec`).
fn try_read_settings(json: &JsonValue) -> (r: Result<SettingsDesc, SceneError>)
    ensures
        outcome_matches(
            r,
            |d: SettingsDesc| (scene_view(d.scene), output_view(d.output)),
            settings_spec(json_view(*json)),
        ),
{
    let nodes = match json {
        JsonValue::Object(nodes) => nodes,
        _ => {
            return Err(SceneError::MissingScene);
        },
    };
    proof {
        lemma_object_view(*nodes);
    }
    let ghost fm = field_models(nodes@);
    let mut scene: Option<SceneDesc> = None;
    let mut output: Option<Output> = None;
    let k_scene = String::from_str("scene");
    let k_output = String::from_str("output");
    let mut i: usize = 0;
    assert(fm.take(0) =~= Seq::<Field>::empty());
    while i < nodes.len()
        invariant
            fm == field_models(nodes@),
            json_view(*json) == JsonModel::Object(fm),
            i <= nodes.len(),
            k_scene@ == "scene"@,
            k_output@ == "output"@,
            fold_fields(fm.take(i as int), (None, None), settings_steps()) == Ok::<
                SettingsState,
                SceneError,
            >((scene_opt_view(scene), output_opt_view(output))),
        decreases nodes.len() - i,
    {
        let node = &nodes[i];
        assert(fm.take(i + 1).drop_last() =~= fm.take(i as int));
        if node.0 == k_scene {
            match try_read_scene(&node.1) {
                Ok(d) => {
                    scene = Some(d);
                },
                Err(SceneError::MissingScene) => {
                    scene = None;
                },
                Err(e) => {
                    proof {
                        lemma_fold_fields_error(fm, (None, None), settings_steps(), i as int + 1);
                    }
                    return Err(e);
                },
            }
        } else if node.0 == k_output {
            output = read_output(&node.1);
        }
        i = i + 1;
    }
    assert(fm.take(i as int) =~= fm);
    match scene {
        Some(scene) => match output {
            Some(output) => Ok(SettingsDesc { scene, output }),
            None => Err(SceneError::MissingOutput),
        },
        None => Err(SceneError::MissingScene),
    }
}

/// Where the material named `id` stands in a list of material ids: the first
/// exact match, `None` where no id matches.
pub fn find_material(ids: &Vec<String>, id: &String) -> (r: Option<usize>)
    ensures
        match r {
            Some(i) => i < ids.len() && ids@[i as int]@ == id@ && forall|j: int|
                0 <= j < i ==> #[trigger] ids@[j]@ != id@,
            None => forall|j: int| 0 <= j < ids.len() ==> #[trigger] ids@[j]@ != id@,
        },
{
    let mut i: usize = 0;
    while i < ids.len()
        invariant
            i <= ids.len(),
            forall|j: int| 0 <= j < i ==> #[trigger] ids@[j]@ != id@,
        decreases ids.len() - i,
    {
        if ids[i] == *id {
            return Some(i);
        }
        i = i + 1;
    }
    None
}

/// The error of a reader's outcome, `None` where it has none.
pub open spec fn error_of<M>(res: Result<M, SceneError>) -> Option<SceneError> {
    match res {
        Ok(_) => None,
        Err(e) => Some(e),
    }
}

/// Three numbers of an array: its first three items as lexemes, `0` for an
/// item that is not a number; `None` for a value that is not an array.
pub open spec fn triplet_option_spec(m: JsonModel) -> Option<TripletModel> {
    match m {
        JsonModel::Array(items) => Some(
            (lexeme_or_zero(items[0]), lexeme_or_zero(items[1]), lexeme_or_zero(items[2])),
        ),
        _ => None,
    }
}

/// Reads three numbers (see `triplet_option_spec`). An array needs at least
/// three items.
pub fn read_number_triplet(array: &JsonValue) -> (r: Option<Triplet>)
    requires
        json_view(*array) matches JsonModel::Array(items) ==> items.len() >= 3,
    ensures
        match r {
            Some(t) => triplet_option_spec(json_view(*array)) == Some(triplet_view(t)),
            None => triplet_option_spec(json_view(*array)) is None,
        },
{
    match array {
        JsonValue::Array(_) => match try_read_number_triplet(array) {
            Ok(t) => Some(t),
            Err(_) => unreached(),
        },
        _ => None,
    }
}

/// The error that reading the materials of an array meets, `None` where there is none.
pub fn materials_error(values: &Vec<JsonValue>) -> (r: Option<SceneError>)
    ensures
        r == error_of(fold_items(models(values@), material_reads())),
{
    match try_read_materials(values) {
        Ok(_) => None,
        Err(e) => Some(e),
    }
}

/// Reads the materials of an array that has no error (`materials_error` tells).
pub fn read_materials(values: &Vec<JsonValue>) -> (r: Vec<MaterialDesc>)
    requires
        fold_items(models(values@), material_reads()) is Ok,
    ensures
        fold_items(models(values@), material_reads()) == Ok::<_, SceneError>(materials_view(r@)),
{
    match try_read_materials(values) {
        Ok(v) => v,
        Err(_) => unreached(),
    }
}

/// The error that reading the spheres of an array meets, `None` where there is none.
pub fn spheres_error(values: &Vec<JsonValue>) -> (r: Option<SceneError>)
    ensures
        r == error_of(fold_items(models(values@), sphere_reads())),
{
    match try_read_spheres(values) {
        Ok(_) => None,
        Err(e) => Some(e),
    }
}

/// Reads the spheres of an array that has no error (`spheres_error` tells).
pub fn read_spheres(values: &Vec<JsonValue>) -> (r: Vec<SphereDesc>)
    requires
        fold_items(models(values@), sphere_reads()) is Ok,
    ensures
        fold_items(models(values@), sphere_reads()) == Ok::<_, SceneError>(spheres_view(r@)),
{
    match try_read_spheres(values) {
        Ok(v) => v,
        Err(_) => unreached(),
    }
}

/// The error that reading the placed models of an array meets, `None` where there is none.
pub fn placements_error(values: &Vec<JsonValue>) -> (r: Option<SceneError>)
    ensures
        r == error_of(fold_items(models(values@), placement_reads())),
{
    match try_read_placements(values) {
        Ok(_) => None,
        Err(e) => Some(e),
    }
}

/// Reads the placed models of an array that has no error (`placements_error` tells).
pub fn read_placements(values: &Vec<JsonValue>) -> (r: Vec<PlacementDesc>)
    requires
        fold_items(models(values@), placement_reads()) is Ok,
    ensures
        fold_items(models(values@), placement_reads()) == Ok::<_, SceneError>(placements_view(r@)),
{
    match try_read_placements(values) {
        Ok(v) => v,
        Err(_) => unreached(),
    }
}

/// The error that reading the lights of an array meets, `None` where there is none.
pub fn lights_error(values: &Vec<JsonValue>) -> (r: Option<SceneError>)
    ensures
        r == error_of(fold_items(models(values@), light_reads())),
{
    match try_read_lights(values) {
        Ok(_) => None,
        Err(e) => Some(e),
    }
}

/// Reads the lights of an array that has no error (`lights_error` tells).
pub fn read_lights(values: &Vec<JsonValue>) -> (r: Vec<LightDesc>)
    requires
        fold_items(models(values@), light_reads()) is Ok,
    ensures
        fold_items(models(values@), light_reads()) == Ok::<_, SceneError>(lights_view(r@)),
{
    match try_read_lights(values) {
        Ok(v) => v,
        Err(_) => unreached(),
    }
}

/// The error that reading a scene object meets, `None` where there is none.
pub fn scene_error(scene: &JsonValue) -> (r: Option<SceneError>)
    ensures
        r == error_of(scene_spec(json_view(*scene))),
{
    match try_read_scene(scene) {
        Ok(_) => None,
        Err(e) => Some(e),
    }
}

/// Reads a scene object that has no error (`scene_error` tells).
pub fn read_scene(scene: &JsonValue) -> (r: SceneDesc)
    requires
        scene_spec(json_view(*scene)) is Ok,
    ensures
        scene_spec(json_view(*scene)) == Ok::<_, SceneError>(scene_view(r)),
{
    match try_read_scene(scene) {
        Ok(v) => v,
        Err(_) => unreached(),
    }
}

/// The error that reading a scene document meets, `None` where there is none.
pub fn settings_error(json: &JsonValue) -> (r: Option<SceneError>)
    ensures
        r == error_of(settings_spec(json_view(*json))),
{
    match try_read_settings(json) {
        Ok(_) => None,
        Err(e) => Some(e),
    }
}

/// Reads a scene document that has no error (`settings_error` tells).
pub fn read_settings(json: &JsonValue) -> (r: SettingsDesc)
    requires
        settings_spec(json_view(*json)) is Ok,
    ensures
        settings_spec(json_view(*json)) == Ok::<_, SceneError>((scene_view(r.scene), output_view(r.output))),
{
    match try_read_settings(json) {
        Ok(v) => v,
        Err(_) => unreached(),
    }
}

} // verus!
