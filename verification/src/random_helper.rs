//! The synthetic time-series generator: `size` entities with sequential
//! observed timestamps, random values in a half-open range, random
//! identifiers, and an optional metadata document written over each.
use vstd::prelude::*;
use vstd::string::StringExecFns;
use crate::json::{merged, Json, JsonValue};
use crate::json::{
    field_models_prefix, lemma_field_models_prefix_index, lemma_field_models_prefix_len,
};
use crate::text::{dec_str_of, u64_to_string};
use crate::time::{format_rfc3339_millis, now_millis, rfc3339_millis_text};

verus! {

/// Relies on rand's `random`: a fresh sample from the thread-local
/// generator; nothing can be promised of its value.
pub assume_specification<T>[ rand::random::<T> ]() -> (r: T)
    where
        rand::distributions::Standard: rand::distributions::Distribution<T>,
;

/// The identifier alphabet: hexadecimal digits with both letter cases —
/// 22 symbols, the set existing identifiers are drawn from.
pub open spec fn hex_alphabet() -> Seq<char> {
    seq![
        '0', '1', '2', '3', '4', '5', '6', '7', '8', '9', 'a', 'b', 'c', 'd', 'e', 'f',
        'A', 'B', 'C', 'D', 'E', 'F',
    ]
}

/// A one-character string holding symbol `d` of the identifier alphabet.
fn hex_symbol(d: u64) -> (r: &'static str)
    requires
        d < 22,
    ensures
        r@ == seq![hex_alphabet()[d as int]],
{
    proof {
        reveal_strlit("0");
        reveal_strlit("1");
        reveal_strlit("2");
        reveal_strlit("3");
        reveal_strlit("4");
        reveal_strlit("5");
        reveal_strlit("6");
        reveal_strlit("7");
        reveal_strlit("8");
        reveal_strlit("9");
        reveal_strlit("a");
        reveal_strlit("b");
        reveal_strlit("c");
        reveal_strlit("d");
        reveal_strlit("e");
        reveal_strlit("f");
        reveal_strlit("A");
        reveal_strlit("B");
        reveal_strlit("C");
        reveal_strlit("D");
        reveal_strlit("E");
        reveal_strlit("F");
    }
    let r = if d == 0 { "0" }
    else if d == 1 { "1" }
    else if d == 2 { "2" }
    else if d == 3 { "3" }
    else if d == 4 { "4" }
    else if d == 5 { "5" }
    else if d == 6 { "6" }
    else if d == 7 { "7" }
    else if d == 8 { "8" }
    else if d == 9 { "9" }
    else if d == 10 { "a" }
    else if d == 11 { "b" }
    else if d == 12 { "c" }
    else if d == 13 { "d" }
    else if d == 14 { "e" }
    else if d == 15 { "f" }
    else if d == 16 { "A" }
    else if d == 17 { "B" }
    else if d == 18 { "C" }
    else if d == 19 { "D" }
    else if d == 20 { "E" }
    else { "F" };
    proof {
        assert(r@ =~= seq![hex_alphabet()[d as int]]);
    }
    r
}

/// Whether `s` has the shape of a generated identifier: the `id-` prefix
/// followed by `n` symbols of the identifier alphabet.
pub open spec fn is_generated_id(s: Seq<char>, n: int) -> bool {
    &&& s.len() == 3 + n
    &&& s.subrange(0, 3) == "id-"@
    &&& forall|i: int| 3 <= i < s.len() ==> hex_alphabet().contains(#[trigger] s[i])
}

/// Draws a fresh identifier: `id-` followed by `size` random symbols of
/// the identifier alphabet.
pub fn generate_random_id(size: u16) -> (r: String)
    ensures
        is_generated_id(r@, size as int),
{
    let mut r = String::from_str("id-");
    proof {
        reveal_strlit("id-");
        assert(r@.subrange(0, 3) =~= "id-"@);
    }
    let mut i: u16 = 0;
    while i < size
        invariant
            0 <= i <= size,
            r@.len() == 3 + i as int,
            r@.subrange(0, 3) == "id-"@,
            forall|j: int| 3 <= j < r@.len() ==> hex_alphabet().contains(#[trigger] r@[j]),
        decreases size as int - i as int,
    {
        let d: usize = rand::random::<usize>();
        let idx = d % 22;
        let ghost before = r@;
        r.append(hex_symbol(idx as u64));
        proof {
            assert(r@.subrange(0, 3) =~= before.subrange(0, 3));
            assert(r@[r@.len() - 1] == hex_alphabet()[idx as int]);
        }
        i = i + 1;
    }
    r
}

/// Draws a value in `[min, max)`: a random sample reduced by remainder,
/// shifted up to the minimum.
pub fn draw_value(min: u16, max: u16) -> (v: u16)
    requires
        min < max,
    ensures
        min <= v < max,
{
    let raw: u16 = rand::random::<u16>();
    raw % (max - min) + min
}

/// The model of one attribute object: a type, a text value, and empty
/// metadata.
pub open spec fn attr_model(ty: Seq<char>, value: Seq<char>) -> Json {
    Json::Object(
        seq![
            ("type"@, Json::Text(ty)),
            ("value"@, Json::Text(value)),
            ("metadata"@, Json::Object(Seq::empty())),
        ],
    )
}

/// The model of one synthetic entity before any metadata is merged in:
/// the identifier, the type, a `DateTime` attribute `dateObserved`, and a
/// `Number` attribute `value`.
pub open spec fn entity_model(
    id: Seq<char>,
    ty: Seq<char>,
    datetime: Seq<char>,
    value: Seq<char>,
) -> Json {
    Json::Object(
        seq![
            ("id"@, Json::Text(id)),
            ("type"@, Json::Text(ty)),
            ("dateObserved"@, attr_model("DateTime"@, datetime)),
            ("value"@, attr_model("Number"@, value)),
        ],
    )
}

/// Builds one attribute object.
fn make_attr(ty: &str, value: &String) -> (a: JsonValue)
    ensures
        a.model() == attr_model(ty@, value@),
{
    let fields: Vec<(String, JsonValue)> = vec![
        (String::from_str("type"), JsonValue::String(ty.to_owned())),
        (String::from_str("value"), JsonValue::String(value.clone())),
        (String::from_str("metadata"), JsonValue::Object(Vec::new())),
    ];
    let ghost fv = fields@;
    let a = JsonValue::Object(fields);
    proof {
        lemma_field_models_prefix_len(fv, 3);
        lemma_field_models_prefix_index(fv, 3, 0);
        lemma_field_models_prefix_index(fv, 3, 1);
        lemma_field_models_prefix_index(fv, 3, 2);
        assert(field_models_prefix(fv, 3) =~= seq![
            ("type"@, Json::Text(ty@)),
            ("value"@, Json::Text(value@)),
            ("metadata"@, Json::Object(Seq::empty())),
        ]);
    }
    a
}

/// Builds one synthetic entity with the fixed attribute shape.
pub fn create_entity(id: &String, series_type: &String, datetime: &String, value: &String) -> (e:
    JsonValue)
    ensures
        e matches JsonValue::Object(_),
        e.model() == entity_model(id@, series_type@, datetime@, value@),
{
    let observed = make_attr("DateTime", datetime);
    let reading = make_attr("Number", value);
    let fields: Vec<(String, JsonValue)> = vec![
        (String::from_str("id"), JsonValue::String(id.clone())),
        (String::from_str("type"), JsonValue::String(series_type.clone())),
        (String::from_str("dateObserved"), observed),
        (String::from_str("value"), reading),
    ];
    let ghost fv = fields@;
    let e = JsonValue::Object(fields);
    proof {
        lemma_field_models_prefix_len(fv, 4);
        lemma_field_models_prefix_index(fv, 4, 0);
        lemma_field_models_prefix_index(fv, 4, 1);
        lemma_field_models_prefix_index(fv, 4, 2);
        lemma_field_models_prefix_index(fv, 4, 3);
        assert(field_models_prefix(fv, 4) =~= seq![
            ("id"@, Json::Text(id@)),
            ("type"@, Json::Text(series_type@)),
            ("dateObserved"@, attr_model("DateTime"@, datetime@)),
            ("value"@, attr_model("Number"@, value@)),
        ]);
    }
    e
}

/// The instant entity `i` observes: the clock value plus `i` intervals of
/// `interval` minutes, in milliseconds.
pub open spec fn observed_ms(now_ms: i64, interval: u16, i: int) -> int {
    now_ms + i * (interval as int) * 60000
}

/// The metadata document written over an entity, when one is given.
pub open spec fn apply_metadata_model(e: Json, metadata: Option<Json>) -> Json {
    match metadata {
        Option::Some(m) => merged(e, m),
        Option::None => e,
    }
}

/// The model of an optional metadata document.
pub open spec fn metadata_model(metadata: Option<&JsonValue>) -> Option<Json> {
    match metadata {
        Option::Some(m) => Option::Some(m.model()),
        Option::None => Option::None,
    }
}

/// The model of an optional metadata document, given by value.
pub open spec fn metadata_model_owned(metadata: Option<JsonValue>) -> Option<Json> {
    match metadata {
        Option::Some(m) => Option::Some(m.model()),
        Option::None => Option::None,
    }
}

/// What entity `i` of a generated series looks like: some identifier of
/// the generated shape and some value in `[min, max)`, rendered into the
/// fixed entity shape at the instant entity `i` observes, with the
/// metadata written over it when there is any.
pub open spec fn generated_entity(
    e: Json,
    now_ms: i64,
    min: u16,
    max: u16,
    interval: u16,
    ty: Seq<char>,
    metadata: Option<Json>,
    i: int,
) -> bool {
    exists|id: Seq<char>, v: u16|
        {
            &&& is_generated_id(id, 16)
            &&& min <= v < max
            &&& e == apply_metadata_model(
                #[trigger] entity_model(
                    id,
                    ty,
                    rfc3339_millis_text(observed_ms(now_ms, interval, i) as i64),
                    dec_str_of(v as int),
                ),
                metadata,
            )
        }
}

/// A whole generated series: every entity has the generated shape for its
/// own position.
pub open spec fn generated_series(
    es: Seq<JsonValue>,
    now_ms: i64,
    min: u16,
    max: u16,
    interval: u16,
    ty: Seq<char>,
    metadata: Option<Json>,
) -> bool {
    forall|i: int|
        0 <= i < es.len() ==> #[trigger] generated_entity(
            es[i].model(),
            now_ms,
            min,
            max,
            interval,
            ty,
            metadata,
            i,
        )
}

/// Builds the series at a given clock value: `size` entities, entity `i`
/// observing `now_ms` plus `i` intervals, each with its own random
/// identifier and value.
pub fn generate_series_at(
    now_ms: i64,
    min: u16,
    max: u16,
    size: u16,
    interval: u16,
    series_type: &String,
    metadata: Option<&JsonValue>,
) -> (r: Vec<JsonValue>)
    requires
        min < max,
        -8_000_000_000_000_000 <= now_ms,
        now_ms + (size as int) * (interval as int) * 60000 <= 8_000_000_000_000_000,
        metadata matches Option::Some(m) ==> m matches JsonValue::Object(_),
    ensures
        r@.len() == size as int,
        forall|i: int|
            0 <= i < size as int ==> generated_entity(
                (#[trigger] r@[i]).model(),
                now_ms,
                min,
                max,
                interval,
                series_type@,
                metadata_model(metadata),
                i,
            ),
{
    let mut r: Vec<JsonValue> = Vec::new();
    let mut i: u16 = 0;
    proof {
        assert(0 <= (size as int) * (interval as int) * 60000) by (nonlinear_arith)
            requires 0 <= size as int && 0 <= interval as int;
    }
    while i < size
        invariant
            min < max,
            0 <= i <= size,
            -8_000_000_000_000_000 <= now_ms,
            now_ms + (size as int) * (interval as int) * 60000 <= 8_000_000_000_000_000,
            0 <= (size as int) * (interval as int) * 60000,
            metadata matches Option::Some(m) ==> m matches JsonValue::Object(_),
            r@.len() == i as int,
            forall|j: int|
                0 <= j < i as int ==> generated_entity(
                    (#[trigger] r@[j]).model(),
                    now_ms,
                    min,
                    max,
                    interval,
                    series_type@,
                    metadata_model(metadata),
                    j,
                ),
        decreases size as int - i as int,
    {
        proof {
            assert(0 <= (i as int) * (interval as int) * 60000 <= (size as int) * (interval as int)
                * 60000) by (nonlinear_arith)
                requires 0 <= i as int <= size as int && 0 <= interval as int;
        }
        let offset: i64 = (i as i64) * (interval as i64) * 60000;
        let ms: i64 = now_ms + offset;
        let datetime = format_rfc3339_millis(ms);
        let v = draw_value(min, max);
        let value_text = u64_to_string(v as u64);
        let id = generate_random_id(16);
        let base = create_entity(&id, series_type, &datetime, &value_text);
        let entity = match metadata {
            Option::Some(m) => crate::json::merge_metadata(base, m),
            Option::None => base,
        };
        proof {
            assert(ms == observed_ms(now_ms, interval, i as int) as i64);
            assert(entity.model() == apply_metadata_model(
                entity_model(
                    id@,
                    series_type@,
                    rfc3339_millis_text(observed_ms(now_ms, interval, i as int) as i64),
                    dec_str_of(v as int),
                ),
                metadata_model(metadata),
            ));
        }
        r.push(entity);
        i = i + 1;
    }
    r
}

/// The interval between entities, one minute when none is given.
pub open spec fn interval_or_default(measurement_interval: Option<u16>) -> u16 {
    match measurement_interval {
        Option::Some(v) => v,
        Option::None => 1u16,
    }
}

/// The entity type, `SimpleTimeSeries` when none is given.
pub open spec fn series_type_or_default(series_type: Option<String>) -> Seq<char> {
    match series_type {
        Option::Some(s) => s@,
        Option::None => "SimpleTimeSeries"@,
    }
}

/// The produced series, or nothing's worth of it.
pub open spec fn series_or_empty(r: Option<Vec<JsonValue>>) -> Seq<JsonValue> {
    match r {
        Option::Some(es) => es@,
        Option::None => Seq::empty(),
    }
}

/// Produces `size` synthetic entities at the system clock: entity `i`
/// observes now plus `i` intervals, values lie in `[min, max)`, and the
/// metadata document, when given, is written over every entity. Nothing is
/// produced only when the clock reports an instant too far out for the
/// timestamp format — practically unreachable.
pub fn generate_simple_time_series(
    min: u16,
    max: u16,
    size: u16,
    measurement_interval: Option<u16>,
    series_type: Option<String>,
    metadata: Option<JsonValue>,
) -> (r: Option<Vec<JsonValue>>)
    requires
        min < max,
        metadata matches Option::Some(m) ==> m matches JsonValue::Object(_),
    ensures
        r matches Option::Some(es) ==> es@.len() == size as int,
        r is Some ==> exists|now_ms: i64|
            generated_series(
                series_or_empty(r),
                now_ms,
                min,
                max,
                interval_or_default(measurement_interval),
                series_type_or_default(series_type),
                metadata_model_owned(metadata),
            ),
{
    let interval = match measurement_interval {
        Option::Some(v) => v,
        Option::None => 1u16,
    };
    let ty = match series_type {
        Option::Some(s) => s,
        Option::None => String::from_str("SimpleTimeSeries"),
    };
    let now_ms = now_millis();
    if now_ms < -8_000_000_000_000_000 || now_ms > 7_000_000_000_000_000 {
        return Option::None;
    }
    proof {
        assert((size as int) * (interval as int) * 60000 <= 300_000_000_000_000)
            by (nonlinear_arith)
            requires 0 <= size as int <= 65535 && 0 <= interval as int <= 65535;
    }
    let md_ref: Option<&JsonValue> = match &metadata {
        Option::Some(m) => Option::Some(m),
        Option::None => Option::None,
    };
    let out = generate_series_at(now_ms, min, max, size, interval, &ty, md_ref);
    proof {
        assert(metadata_model(md_ref) == metadata_model_owned(metadata));
        assert forall|i: int| 0 <= i < out@.len() implies #[trigger] generated_entity(
            out@[i].model(),
            now_ms,
            min,
            max,
            interval,
            ty@,
            metadata_model_owned(metadata),
            i,
        ) by {
            assert(generated_entity(
                out@[i].model(),
                now_ms,
                min,
                max,
                interval,
                ty@,
                metadata_model(md_ref),
                i,
            ));
        }
        assert(generated_series(
            out@,
            now_ms,
            min,
            max,
            interval_or_default(measurement_interval),
            series_type_or_default(series_type),
            metadata_model_owned(metadata),
        ));
        assert(series_or_empty(Option::Some(out)) == out@);
        assert(generated_series(
            series_or_empty(Option::Some(out)),
            now_ms,
            min,
            max,
            interval_or_default(measurement_interval),
            series_type_or_default(series_type),
            metadata_model_owned(metadata),
        ));
        assert(exists|n: i64|
            generated_series(
                series_or_empty(Option::Some(out)),
                n,
                min,
                max,
                interval_or_default(measurement_interval),
                series_type_or_default(series_type),
                metadata_model_owned(metadata),
            ));
    }
    Option::Some(out)
}

/// Timestamp sequencing: consecutive entities of a series observe instants
/// exactly one interval apart — 60 seconds at the default interval of one
/// minute — strictly increasing for every positive interval.
pub proof fn lemma_timestamp_sequencing(now_ms: i64, interval: u16, i: int)
    ensures
        observed_ms(now_ms, interval, i + 1) - observed_ms(now_ms, interval, i) == (
        interval as int) * 60000,
        interval >= 1 ==> observed_ms(now_ms, interval, i + 1) > observed_ms(
            now_ms,
            interval,
            i,
        ),
{
    assert((i + 1) * (interval as int) * 60000 - i * (interval as int) * 60000 == (
    interval as int) * 60000) by (nonlinear_arith);
}

} // verus!
