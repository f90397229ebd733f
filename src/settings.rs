use vstd::prelude::*;
use crate::json::{
    is_digit, json_view, lemma_object_view, field_models, unsigned_part, JsonModel, JsonValue,
};
use crate::text::{chars_of, string_of, trim_chars, trimmed};

verus! {

/// The kinds of light a scene can hold.
#[derive(Debug, Clone, Copy, PartialEq, Eq, Structural)]
pub enum LightType {
    Point,
    Sphere,
}

/// Where and how large the rendered image is.
#[derive(Debug)]
pub struct Output {
    pub filename: String,
    pub width: u32,
    pub height: u32,
    pub samples: u32,
}

/// A name for what `str::to_lowercase` gives for a text.
pub uninterp spec fn lower_of(s: Seq<char>) -> Seq<char>;

/// Relies on `str::to_lowercase`: the lower-case form of a text, which
/// depends on its characters alone.
#[verifier::external_body]
fn lowercase(s: &str) -> (r: String)
    ensures
        r@ == lower_of(s@),
{
    s.to_lowercase()
}

/// The light type that a lower-case name stands for.
pub open spec fn light_type_named(t: Seq<char>) -> Option<LightType> {
    if t == "point"@ {
        Some(LightType::Point)
    } else if t == "sphere"@ {
        Some(LightType::Sphere)
    } else {
        None
    }
}

/// The light type of a name already in lower case: `point` or `sphere`.
pub fn light_type_of(lowered: &String) -> (r: Option<LightType>)
    ensures
        r == light_type_named(lowered@),
{
    if *lowered == String::from_str("point") {
        Some(LightType::Point)
    } else if *lowered == String::from_str("sphere") {
        Some(LightType::Sphere)
    } else {
        None
    }
}

/// The light type a scene names, in any case and with surrounding
/// whitespace; `None` for an unknown type.
pub fn parse_light_type(name: &str) -> (r: Option<LightType>)
    ensures
        r == light_type_named(lower_of(trimmed(name@))),
{
    let t = string_of(&trim_chars(&chars_of(name)));
    let lowered = lowercase(t.as_str());
    light_type_of(&lowered)
}

/// Number of leading decimal digits of `b`.
pub open spec fn lead_digits(b: Seq<char>) -> nat
    decreases b.len(),
{
    if b.len() > 0 && is_digit(b[0]) {
        1 + lead_digits(b.drop_first())
    } else {
        0
    }
}

/// The value of a string of decimal digits.
pub open spec fn decimal_value(d: Seq<char>) -> nat
    decreases d.len(),
{
    if d.len() == 0 {
        0
    } else {
        decimal_value(d.drop_last()) * 10 + (d.last() as u32 - '0' as u32) as nat
    }
}

/// The digits before the point of a number lexeme.
pub open spec fn integer_digits(t: Seq<char>) -> Seq<char> {
    unsigned_part(t).take(lead_digits(unsigned_part(t)) as int)
}

/// A number lexeme as a count: its integer part, zero where it is negative,
/// and `u32::MAX` where it does not fit.
pub open spec fn count_of(t: Seq<char>) -> u32 {
    if t.len() > 0 && t[0] == '-' {
        0
    } else if decimal_value(integer_digits(t)) > u32::MAX {
        u32::MAX
    } else {
        decimal_value(integer_digits(t)) as u32
    }
}

/// Reads a number lexeme as a count (see `count_of`).
pub fn lexeme_to_u32(lexeme: &String) -> (r: u32)
    ensures
        r == count_of(lexeme@),
{
    let c = chars_of(lexeme.as_str());
    let ghost t = c@;
    if c.len() > 0 && c[0] == '-' {
        return 0;
    }
    let mut i: usize = 0;
    if c.len() > 0 && c[0] == '+' {
        i = 1;
    }
    let b: usize = i;
    let ghost body = unsigned_part(t);
    assert(body =~= t.subrange(b as int, t.len() as int));
    let mut acc: u64 = 0;
    assert(body.take(0) =~= Seq::<char>::empty());
    assert(body.subrange(0, body.len() as int) =~= body);
    while i < c.len() && '0' <= c[i] && c[i] <= '9'
        invariant
            t == c@,
            body == t.subrange(b as int, t.len() as int),
            b <= i <= c.len(),
            lead_digits(body) == (i - b) + lead_digits(body.subrange(i - b, body.len() as int)),
            acc <= u32::MAX,
            acc == (if decimal_value(body.take(i - b)) > u32::MAX {
                u32::MAX as nat
            } else {
                decimal_value(body.take(i - b))
            }),
        decreases c.len() - i,
    {
        let ghost k = i - b;
        let d = (c[i] as u32 - '0' as u32) as u64;
        assert(body.take(k + 1).drop_last() =~= body.take(k));
        assert(body.subrange(k, body.len() as int).drop_first() =~= body.subrange(
            k + 1,
            body.len() as int,
        ));
        let ghost dv = decimal_value(body.take(k));
        assert(decimal_value(body.take(k + 1)) == dv * 10 + d);
        let next = acc * 10 + d;
        if next > u32::MAX as u64 {
            assert(dv * 10 + d > u32::MAX) by (nonlinear_arith)
                requires
                    acc * 10 + d > u32::MAX,
                    acc == (if dv > u32::MAX {
                        u32::MAX as nat
                    } else {
                        dv
                    }),
            ;
            acc = u32::MAX as u64;
        } else {
            acc = next;
            assert(dv <= u32::MAX) by (nonlinear_arith)
                requires
                    acc == (if dv > u32::MAX {
                        u32::MAX as nat
                    } else {
                        dv
                    }) * 10 + d,
                    acc <= u32::MAX,
                    d >= 0,
            ;
        }
        i = i + 1;
    }
    assert(lead_digits(body.subrange(i - b, body.len() as int)) == 0);
    assert(integer_digits(t) == body.take(i - b));
    acc as u32
}

/// The output settings: file, width, height and samples per pixel side.
pub type OutputModel = (Seq<char>, u32, u32, u32);

/// One field of an output block applied to the settings read so far; fields
/// of another name or kind leave them as they are.
pub open spec fn output_step(o: OutputModel, f: (Seq<char>, JsonModel)) -> OutputModel {
    if f.0 == "file"@ {
        match f.1 {
            JsonModel::Text(t) => (t, o.1, o.2, o.3),
            _ => o,
        }
    } else if f.0 == "width"@ {
        match f.1 {
            JsonModel::Number(t) => (o.0, count_of(t), o.2, o.3),
            _ => o,
        }
    } else if f.0 == "height"@ {
        match f.1 {
            JsonModel::Number(t) => (o.0, o.1, count_of(t), o.3),
            _ => o,
        }
    } else if f.0 == "samples"@ {
        match f.1 {
            JsonModel::Number(t) => (o.0, o.1, o.2, count_of(t)),
            _ => o,
        }
    } else {
        o
    }
}

/// The settings of an output block: the defaults (`render.tga`, 1920 by
/// 1080, one sample), then each field in order, so the last one of a name wins.
pub open spec fn output_fold(fields: Seq<(Seq<char>, JsonModel)>) -> OutputModel
    decreases fields.len(),
{
    if fields.len() == 0 {
        ("render.tga"@, 1920, 1080, 1)
    } else {
        output_step(output_fold(fields.drop_last()), fields.last())
    }
}

pub open spec fn output_view(o: Output) -> OutputModel {
    (o.filename@, o.width, o.height, o.samples)
}

/// Reads the output block of a scene document; `None` where it is not an object.
pub fn read_output(output: &JsonValue) -> (r: Option<Output>)
    ensures
        match json_view(*output) {
            JsonModel::Object(fields) => r is Some && output_view(r->0) == output_fold(fields),
            _ => r is None,
        },
{
    match output {
        JsonValue::Object(fields) => {
            proof {
                lemma_object_view(*fields);
            }
            let ghost fm = field_models(fields@);
            let mut result = Output {
                filename: String::from_str("render.tga"),
                width: 1920,
                height: 1080,
                samples: 1,
            };
            let key_file = String::from_str("file");
            let key_width = String::from_str("width");
            let key_height = String::from_str("height");
            let key_samples = String::from_str("samples");
            let mut i: usize = 0;
            assert(fm.take(0) =~= Seq::<(Seq<char>, JsonModel)>::empty());
            while i < fields.len()
                invariant
                    fm == field_models(fields@),
                    i <= fields.len(),
                    key_file@ == "file"@,
                    key_width@ == "width"@,
                    key_height@ == "height"@,
                    key_samples@ == "samples"@,
                    output_view(result) == output_fold(fm.take(i as int)),
                decreases fields.len() - i,
            {
                let f = &fields[i];
                assert(fm.take(i + 1).drop_last() =~= fm.take(i as int));
                if f.0 == key_file {
                    if let JsonValue::String(st) = &f.1 {
                        result.filename = st.clone();
                    }
                } else if f.0 == key_width {
                    if let JsonValue::Number(num) = &f.1 {
                        result.width = lexeme_to_u32(num);
                    }
                } else if f.0 == key_height {
                    if let JsonValue::Number(num) = &f.1 {
                        result.height = lexeme_to_u32(num);
                    }
                } else if f.0 == key_samples {
                    if let JsonValue::Number(num) = &f.1 {
                        result.samples = lexeme_to_u32(num);
                    }
                }
                i = i + 1;
            }
            assert(fm.take(i as int) =~= fm);
            Some(result)
        },
        _ => None,
    }
}

} // verus!
