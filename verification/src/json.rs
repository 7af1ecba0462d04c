//! Open JSON-like documents: the representation of entities and attribute
//! values, together with the mathematical model the contracts speak of.
use vstd::prelude::*;

verus! {

broadcast use vstd::std_specs::vec::group_vec_axioms;

/// Mathematical model of a JSON document. `Number` carries the decimal text
/// of the number; the client never does arithmetic on attribute values.
pub enum Json {
    Null,
    Bool(bool),
    Number(Seq<char>),
    Text(Seq<char>),
    Array(Seq<Json>),
    Object(Seq<(Seq<char>, Json)>),
}

/// Executable JSON document. Numbers are kept as their decimal text, exactly
/// as they are sent to or received from the broker.
pub enum JsonValue {
    Null,
    Bool(bool),
    Number(String),
    String(String),
    Array(Vec<JsonValue>),
    Object(Vec<(String, JsonValue)>),
}

impl JsonValue {
    /// The model of a document: the same tree over sequences.
    pub open spec fn model(self) -> Json
        decreases self, 1int, 0int,
    {
        match self {
            JsonValue::Null => Json::Null,
            JsonValue::Bool(b) => Json::Bool(b),
            JsonValue::Number(s) => Json::Number(s@),
            JsonValue::String(s) => Json::Text(s@),
            JsonValue::Array(items) => Json::Array(
                models_prefix(items@, items@.len() as int),
            ),
            JsonValue::Object(fields) => Json::Object(
                field_models_prefix(fields@, fields@.len() as int),
            ),
        }
    }
}

/// Models of the first `n` elements of a sequence of documents.
pub open spec fn models_prefix(items: Seq<JsonValue>, n: int) -> Seq<Json>
    decreases items, 0int, n,
{
    if n <= 0 || n > items.len() {
        Seq::empty()
    } else {
        models_prefix(items, n - 1).push(items[n - 1].model())
    }
}

/// Models of the first `n` key/value pairs of an object's field list.
pub open spec fn field_models_prefix(
    fields: Seq<(String, JsonValue)>,
    n: int,
) -> Seq<(Seq<char>, Json)>
    decreases fields, 0int, n,
{
    if n <= 0 || n > fields.len() {
        Seq::empty()
    } else {
        field_models_prefix(fields, n - 1).push(
            (fields[n - 1].0@, fields[n - 1].1.model()),
        )
    }
}

pub broadcast proof fn lemma_models_prefix_len(items: Seq<JsonValue>, n: int)
    requires
        0 <= n <= items.len(),
    ensures
        (#[trigger] models_prefix(items, n)).len() == n,
    decreases n,
{
    if n > 0 {
        lemma_models_prefix_len(items, n - 1);
    }
}

pub broadcast proof fn lemma_models_prefix_index(items: Seq<JsonValue>, n: int, i: int)
    requires
        0 <= n <= items.len(),
        0 <= i < n,
    ensures
        #[trigger] models_prefix(items, n)[i] == items[i].model(),
    decreases n,
{
    lemma_models_prefix_len(items, n);
    if i < n - 1 {
        lemma_models_prefix_index(items, n - 1, i);
        lemma_models_prefix_len(items, n - 1);
    } else {
        lemma_models_prefix_len(items, n - 1);
    }
}

pub broadcast proof fn lemma_field_models_prefix_len(fields: Seq<(String, JsonValue)>, n: int)
    requires
        0 <= n <= fields.len(),
    ensures
        (#[trigger] field_models_prefix(fields, n)).len() == n,
    decreases n,
{
    if n > 0 {
        lemma_field_models_prefix_len(fields, n - 1);
    }
}

pub broadcast proof fn lemma_field_models_prefix_index(
    fields: Seq<(String, JsonValue)>,
    n: int,
    i: int,
)
    requires
        0 <= n <= fields.len(),
        0 <= i < n,
    ensures
        #[trigger] field_models_prefix(fields, n)[i] == (fields[i].0@, fields[i].1.model()),
    decreases n,
{
    lemma_field_models_prefix_len(fields, n);
    if i < n - 1 {
        lemma_field_models_prefix_index(fields, n - 1, i);
        lemma_field_models_prefix_len(fields, n - 1);
    } else {
        lemma_field_models_prefix_len(fields, n - 1);
    }
}

/// First binding of `key` in a model object's field list, if any.
pub open spec fn lookup(fields: Seq<(Seq<char>, Json)>, key: Seq<char>) -> Option<Json>
    decreases fields.len(),
{
    if fields.len() == 0 {
        None
    } else if fields.first().0 == key {
        Some(fields.first().1)
    } else {
        lookup(fields.drop_first(), key)
    }
}

impl Json {
    /// The value bound to `key` when the document is an object holding it.
    pub open spec fn get(self, key: Seq<char>) -> Option<Json> {
        match self {
            Json::Object(fields) => lookup(fields, key),
            _ => None,
        }
    }

    /// The text of a document that is a JSON string.
    pub open spec fn as_text(self) -> Option<Seq<char>> {
        match self {
            Json::Text(s) => Some(s),
            _ => None,
        }
    }
}

/// A binding at position `i`, with no earlier binding of the same key,
/// is what `lookup` returns.
pub proof fn lemma_lookup_at(fields: Seq<(Seq<char>, Json)>, key: Seq<char>, i: int)
    requires
        0 <= i < fields.len(),
        fields[i].0 == key,
        forall|j: int| 0 <= j < i ==> fields[j].0 != key,
    ensures
        lookup(fields, key) == Some(fields[i].1),
    decreases fields.len(),
{
    if i > 0 {
        lemma_lookup_at(fields.drop_first(), key, i - 1);
    }
}

/// When no binding carries `key`, `lookup` returns nothing.
pub proof fn lemma_lookup_none(fields: Seq<(Seq<char>, Json)>, key: Seq<char>)
    requires
        forall|j: int| 0 <= j < fields.len() ==> fields[j].0 != key,
    ensures
        lookup(fields, key) is None,
    decreases fields.len(),
{
    if fields.len() > 0 {
        lemma_lookup_none(fields.drop_first(), key);
    }
}

impl JsonValue {
    /// Looks a key up in an object document; `None` for any other document
    /// and for a key that is not bound.
    pub fn get<'a>(&'a self, key: &String) -> (r: Option<&'a JsonValue>)
        ensures
            match r {
                Some(v) => self.model().get(key@) == Some(v.model()),
                None => self.model().get(key@) is None,
            },
    {
        match self {
            JsonValue::Object(fields) => {
                let ghost m = field_models_prefix(fields@, fields@.len() as int);
                proof {
                    lemma_field_models_prefix_len(fields@, fields@.len() as int);
                }
                let n = fields.len();
                let mut i: usize = 0;
                while i < n
                    invariant
                        n == fields@.len(),
                        0 <= i <= n,
                        m == field_models_prefix(fields@, fields@.len() as int),
                        m.len() == n,
                        self == JsonValue::Object(*fields),
                        forall|j: int| 0 <= j < i ==> m[j].0 != key@,
                    decreases n - i,
                {
                    proof {
                        lemma_field_models_prefix_index(fields@, fields@.len() as int, i as int);
                    }
                    if fields[i].0.eq(key) {
                        proof {
                            lemma_lookup_at(m, key@, i as int);
                        }
                        return Some(&fields[i].1);
                    }
                    i = i + 1;
                }
                proof {
                    lemma_lookup_none(m, key@);
                }
                None
            },
            _ => None,
        }
    }

    /// A deep copy with the same model.
    pub fn duplicate(&self) -> (r: JsonValue)
        ensures
            r.model() == self.model(),
        decreases self, 1int,
    {
        match self {
            JsonValue::Null => JsonValue::Null,
            JsonValue::Bool(b) => JsonValue::Bool(*b),
            JsonValue::Number(s) => JsonValue::Number(s.clone()),
            JsonValue::String(s) => JsonValue::String(s.clone()),
            JsonValue::Array(items) => {
                let out = duplicate_items(items);
                let r = JsonValue::Array(out);
                proof {
                    lemma_models_prefix_extensional(items@, out@);
                }
                r
            },
            JsonValue::Object(fields) => {
                let out = duplicate_fields(fields);
                let r = JsonValue::Object(out);
                proof {
                    lemma_field_models_prefix_extensional(fields@, out@);
                }
                r
            },
        }
    }

    /// The borrowed text of a document that is a JSON string.
    pub fn as_str<'a>(&'a self) -> (r: Option<&'a String>)
        ensures
            match r {
                Some(s) => self.model().as_text() == Some(s@),
                None => self.model().as_text() is None,
            },
    {
        match self {
            JsonValue::String(s) => Some(s),
            _ => None,
        }
    }
}

/// Sequences of documents with equal models element by element have equal
/// model sequences.
pub proof fn lemma_models_prefix_extensional(a: Seq<JsonValue>, b: Seq<JsonValue>)
    requires
        a.len() == b.len(),
        forall|i: int| 0 <= i < a.len() ==> (#[trigger] b[i].model()) == a[i].model(),
    ensures
        models_prefix(b, b.len() as int) == models_prefix(a, a.len() as int),
{
    let n = a.len() as int;
    lemma_models_prefix_len(a, n);
    lemma_models_prefix_len(b, n);
    assert forall|i: int| 0 <= i < n implies models_prefix(b, n)[i] == models_prefix(a, n)[i] by {
        lemma_models_prefix_index(a, n, i);
        lemma_models_prefix_index(b, n, i);
    }
    assert(models_prefix(b, n) =~= models_prefix(a, n));
}

/// Field lists with equal keys and equal value models pair by pair have
/// equal model field lists.
pub proof fn lemma_field_models_prefix_extensional(
    a: Seq<(String, JsonValue)>,
    b: Seq<(String, JsonValue)>,
)
    requires
        a.len() == b.len(),
        forall|i: int| 0 <= i < a.len() ==> (#[trigger] b[i].0@) == a[i].0@,
        forall|i: int| 0 <= i < a.len() ==> (#[trigger] b[i].1.model()) == a[i].1.model(),
    ensures
        field_models_prefix(b, b.len() as int) == field_models_prefix(a, a.len() as int),
{
    let n = a.len() as int;
    lemma_field_models_prefix_len(a, n);
    lemma_field_models_prefix_len(b, n);
    assert forall|i: int| 0 <= i < n implies field_models_prefix(b, n)[i] == field_models_prefix(
        a,
        n,
    )[i] by {
        lemma_field_models_prefix_index(a, n, i);
        lemma_field_models_prefix_index(b, n, i);
    }
    assert(field_models_prefix(b, n) =~= field_models_prefix(a, n));
}

/// Deep copies of all elements of an array, models kept.
fn duplicate_items(items: &Vec<JsonValue>) -> (out: Vec<JsonValue>)
    ensures
        out@.len() == items@.len(),
        forall|i: int| 0 <= i < items@.len() ==> (#[trigger] out@[i].model()) == items@[i].model(),
    decreases items, 0int,
{
    let mut out: Vec<JsonValue> = Vec::new();
    let n = items.len();
    let mut i: usize = 0;
    while i < n
        invariant
            n == items@.len(),
            0 <= i <= n,
            out@.len() == i,
            forall|j: int| 0 <= j < i ==> (#[trigger] out@[j].model()) == items@[j].model(),
        decreases n - i,
    {
        out.push(items[i].duplicate());
        i = i + 1;
    }
    out
}

/// Deep copies of all fields of an object, keys and models kept.
fn duplicate_fields(fields: &Vec<(String, JsonValue)>) -> (out: Vec<(String, JsonValue)>)
    ensures
        out@.len() == fields@.len(),
        forall|i: int| 0 <= i < fields@.len() ==> (#[trigger] out@[i].0@) == fields@[i].0@,
        forall|i: int|
            0 <= i < fields@.len() ==> (#[trigger] out@[i].1.model()) == fields@[i].1.model(),
    decreases fields, 0int,
{
    let mut out: Vec<(String, JsonValue)> = Vec::new();
    let n = fields.len();
    let mut i: usize = 0;
    while i < n
        invariant
            n == fields@.len(),
            0 <= i <= n,
            out@.len() == i,
            forall|j: int| 0 <= j < i ==> (#[trigger] out@[j].0@) == fields@[j].0@,
            forall|j: int| 0 <= j < i ==> (#[trigger] out@[j].1.model()) == fields@[j].1.model(),
        decreases n - i,
    {
        out.push((fields[i].0.clone(), fields[i].1.duplicate()));
        i = i + 1;
    }
    out
}

impl Clone for JsonValue {
    /// A deep copy with the same model.
    fn clone(&self) -> (r: Self)
        ensures
            r.model() == self.model(),
    {
        self.duplicate()
    }
}

/// The field list with `key` bound to `value`: the first binding of the key
/// is replaced in place, and a fresh key is appended at the end.
pub open spec fn set_key(
    fields: Seq<(Seq<char>, Json)>,
    key: Seq<char>,
    value: Json,
) -> Seq<(Seq<char>, Json)>
    decreases fields.len(),
{
    if fields.len() == 0 {
        seq![(key, value)]
    } else if fields.first().0 == key {
        seq![(key, value)] + fields.drop_first()
    } else {
        seq![fields.first()] + set_key(fields.drop_first(), key, value)
    }
}

/// An object document with `key` bound to `value`; any other document is
/// left as it is.
pub open spec fn object_set(doc: Json, key: Seq<char>, value: Json) -> Json {
    match doc {
        Json::Object(fields) => Json::Object(set_key(fields, key, value)),
        _ => doc,
    }
}

/// Binding a key decides exactly that key's lookup and no other.
pub proof fn lemma_lookup_set_key(
    fields: Seq<(Seq<char>, Json)>,
    key: Seq<char>,
    value: Json,
    q: Seq<char>,
)
    ensures
        lookup(set_key(fields, key, value), q) == (if q == key {
            Some(value)
        } else {
            lookup(fields, q)
        }),
    decreases fields.len(),
{
    if fields.len() == 0 {
        assert(set_key(fields, key, value) == seq![(key, value)]);
        assert(set_key(fields, key, value).drop_first() =~= fields);
    } else if fields.first().0 == key {
        let s = seq![(key, value)] + fields.drop_first();
        assert(s.first() == (key, value));
        assert(s.drop_first() =~= fields.drop_first());
    } else {
        let s = seq![fields.first()] + set_key(fields.drop_first(), key, value);
        assert(s.first() == fields.first());
        assert(s.drop_first() =~= set_key(fields.drop_first(), key, value));
        lemma_lookup_set_key(fields.drop_first(), key, value, q);
    }
}

/// Replacing the first binding of a key is `set_key`.
proof fn lemma_set_key_update(
    fields: Seq<(Seq<char>, Json)>,
    key: Seq<char>,
    value: Json,
    i: int,
)
    requires
        0 <= i < fields.len(),
        fields[i].0 == key,
        forall|j: int| 0 <= j < i ==> fields[j].0 != key,
    ensures
        set_key(fields, key, value) == fields.update(i, (key, value)),
    decreases fields.len(),
{
    if i == 0 {
        assert(set_key(fields, key, value) =~= fields.update(0, (key, value)));
    } else {
        lemma_set_key_update(fields.drop_first(), key, value, i - 1);
        assert(seq![fields.first()] + fields.drop_first().update(i - 1, (key, value))
            =~= fields.update(i, (key, value)));
    }
}

/// Appending a fresh key is `set_key`.
proof fn lemma_set_key_append(fields: Seq<(Seq<char>, Json)>, key: Seq<char>, value: Json)
    requires
        forall|j: int| 0 <= j < fields.len() ==> fields[j].0 != key,
    ensures
        set_key(fields, key, value) == fields.push((key, value)),
    decreases fields.len(),
{
    if fields.len() == 0 {
        assert(set_key(fields, key, value) =~= fields.push((key, value)));
    } else {
        lemma_set_key_append(fields.drop_first(), key, value);
        assert(seq![fields.first()] + fields.drop_first().push((key, value)) =~= fields.push(
            (key, value),
        ));
    }
}

/// Returns the object with `key` bound to `value`: the first binding of
/// the key is overwritten in place, a fresh key is appended.
pub fn with_field(obj: JsonValue, key: String, value: JsonValue) -> (r: JsonValue)
    requires
        obj matches JsonValue::Object(_),
    ensures
        r matches JsonValue::Object(_),
        r.model() == object_set(obj.model(), key@, value.model()),
{
    match obj {
        JsonValue::Object(mut fields) => {
            let ghost orig = fields@;
            let ghost orig_model = field_models_prefix(orig, orig.len() as int);
            proof {
                lemma_field_models_prefix_len(orig, orig.len() as int);
            }
            let n = fields.len();
            let mut i: usize = 0;
            while i < n
                invariant
                    n == fields@.len(),
                    0 <= i <= n,
                    fields@ == orig,
                    orig_model == field_models_prefix(orig, orig.len() as int),
                    orig_model.len() == n,
                    obj.model() == Json::Object(orig_model),
                    obj matches JsonValue::Object(_),
                    forall|j: int| 0 <= j < i ==> orig_model[j].0 != key@,
                decreases n - i,
            {
                proof {
                    lemma_field_models_prefix_index(orig, orig.len() as int, i as int);
                }
                if fields[i].0.eq(&key) {
                    let replaced = fields.remove(i);
                    fields.insert(i, (key, value));
                    let ghost updated = fields@;
                    let r = JsonValue::Object(fields);
                    proof {
                        assert(updated =~= orig.update(i as int, (key, value)));
                        lemma_set_key_update(orig_model, key@, value.model(), i as int);
                        lemma_field_models_prefix_len(updated, updated.len() as int);
                        assert forall|j: int| 0 <= j < updated.len() implies field_models_prefix(
                            updated,
                            updated.len() as int,
                        )[j] == orig_model.update(i as int, (key@, value.model()))[j] by {
                            lemma_field_models_prefix_index(updated, updated.len() as int, j);
                            if j != i {
                                lemma_field_models_prefix_index(orig, orig.len() as int, j);
                            }
                        }
                        assert(field_models_prefix(updated, updated.len() as int)
                            =~= orig_model.update(i as int, (key@, value.model())));
                    }
                    return r;
                }
                i = i + 1;
            }
            fields.push((key, value));
            let ghost appended = fields@;
            let r = JsonValue::Object(fields);
            proof {
                lemma_set_key_append(orig_model, key@, value.model());
                lemma_field_models_prefix_len(appended, appended.len() as int);
                assert forall|j: int| 0 <= j < appended.len() implies field_models_prefix(
                    appended,
                    appended.len() as int,
                )[j] == orig_model.push((key@, value.model()))[j] by {
                    lemma_field_models_prefix_index(appended, appended.len() as int, j);
                    if j < appended.len() - 1 {
                        lemma_field_models_prefix_index(orig, orig.len() as int, j);
                    }
                }
                assert(field_models_prefix(appended, appended.len() as int) =~= orig_model.push(
                    (key@, value.model()),
                ));
            }
            r
        },
        v => v,
    }
}

/// The field list of a model object; empty for any other document.
pub open spec fn obj_fields(doc: Json) -> Seq<(Seq<char>, Json)> {
    match doc {
        Json::Object(fields) => fields,
        _ => Seq::empty(),
    }
}

/// The field list after the first `n` overlay bindings have been applied
/// in order, each overwriting or appending as `set_key` does.
pub open spec fn merge_prefix(
    fields: Seq<(Seq<char>, Json)>,
    overlay: Seq<(Seq<char>, Json)>,
    n: int,
) -> Seq<(Seq<char>, Json)>
    decreases n,
{
    if n <= 0 || n > overlay.len() {
        fields
    } else {
        set_key(merge_prefix(fields, overlay, n - 1), overlay[n - 1].0, overlay[n - 1].1)
    }
}

/// An object document with every top-level binding of `m` written over it,
/// last write winning; documents that are not both objects are left alone.
pub open spec fn merged(e: Json, m: Json) -> Json {
    match (e, m) {
        (Json::Object(fields), Json::Object(overlay)) => Json::Object(
            merge_prefix(fields, overlay, overlay.len() as int),
        ),
        _ => e,
    }
}

/// Writes every top-level field of `metadata` into `entity`, overwriting
/// colliding keys — no deep merge, the last write wins.
pub fn merge_metadata(entity: JsonValue, metadata: &JsonValue) -> (r: JsonValue)
    requires
        entity matches JsonValue::Object(_),
        metadata matches JsonValue::Object(_),
    ensures
        r.model() == merged(entity.model(), metadata.model()),
{
    let ghost e0 = entity.model();
    let ghost efields = obj_fields(e0);
    match metadata {
        JsonValue::Object(mfields) => {
            let ghost overlay = field_models_prefix(mfields@, mfields@.len() as int);
            proof {
                lemma_field_models_prefix_len(mfields@, mfields@.len() as int);
            }
            let mut e = entity;
            let n = mfields.len();
            let mut i: usize = 0;
            while i < n
                invariant
                    n == mfields@.len(),
                    0 <= i <= n,
                    overlay == field_models_prefix(mfields@, mfields@.len() as int),
                    overlay.len() == n,
                    e matches JsonValue::Object(_),
                    e0 matches Json::Object(_),
                    efields == obj_fields(e0),
                    e.model() == Json::Object(merge_prefix(efields, overlay, i as int)),
                decreases n - i,
            {
                proof {
                    lemma_field_models_prefix_index(mfields@, mfields@.len() as int, i as int);
                }
                let key = mfields[i].0.clone();
                let value = mfields[i].1.duplicate();
                e = with_field(e, key, value);
                i = i + 1;
            }
            e
        },
        _ => entity,
    }
}

/// Metadata override: a key the overlay binds, and does not bind again
/// later, ends up carrying the overlay's value, whatever the document held.
pub proof fn lemma_metadata_override(
    fields: Seq<(Seq<char>, Json)>,
    overlay: Seq<(Seq<char>, Json)>,
    i: int,
    n: int,
)
    requires
        0 <= i < n <= overlay.len(),
        forall|j: int| i < j < n ==> overlay[j].0 != overlay[i].0,
    ensures
        lookup(merge_prefix(fields, overlay, n), overlay[i].0) == Some(overlay[i].1),
    decreases n,
{
    if i < n - 1 {
        lemma_metadata_override(fields, overlay, i, n - 1);
    }
    lemma_lookup_set_key(
        merge_prefix(fields, overlay, n - 1),
        overlay[n - 1].0,
        overlay[n - 1].1,
        overlay[i].0,
    );
}

/// A key the overlay never binds keeps the document's own binding.
pub proof fn lemma_merge_keeps_others(
    fields: Seq<(Seq<char>, Json)>,
    overlay: Seq<(Seq<char>, Json)>,
    n: int,
    q: Seq<char>,
)
    requires
        0 <= n <= overlay.len(),
        forall|j: int| 0 <= j < n ==> overlay[j].0 != q,
    ensures
        lookup(merge_prefix(fields, overlay, n), q) == lookup(fields, q),
    decreases n,
{
    if n > 0 {
        lemma_merge_keeps_others(fields, overlay, n - 1, q);
        lemma_lookup_set_key(
            merge_prefix(fields, overlay, n - 1),
            overlay[n - 1].0,
            overlay[n - 1].1,
            q,
        );
    }
}

/// Metadata override, over whole documents: looking up an overlay key in
/// the merged document finds the overlay's value.
pub proof fn lemma_merged_get_override(e: Json, m: Json, i: int)
    requires
        e matches Json::Object(_),
        m matches Json::Object(_),
        0 <= i < obj_fields(m).len(),
        forall|j: int| i < j < obj_fields(m).len() ==> obj_fields(m)[j].0 != obj_fields(m)[i].0,
    ensures
        merged(e, m).get(obj_fields(m)[i].0) == Some(obj_fields(m)[i].1),
{
    lemma_metadata_override(obj_fields(e), obj_fields(m), i, obj_fields(m).len() as int);
}

/// Keys the metadata does not carry, over whole documents: the merged
/// document answers as the document answered before the merge.
pub proof fn lemma_merged_get_untouched(e: Json, m: Json, q: Seq<char>)
    requires
        e matches Json::Object(_),
        m matches Json::Object(_),
        forall|j: int| 0 <= j < obj_fields(m).len() ==> obj_fields(m)[j].0 != q,
    ensures
        merged(e, m).get(q) == e.get(q),
{
    lemma_merge_keeps_others(obj_fields(e), obj_fields(m), obj_fields(m).len() as int, q);
}

} // verus!
