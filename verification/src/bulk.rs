//! Batch operations: the three NGSI-style payload shapes and the projection
//! of fetched entities down to their identifiers for a bulk delete.
use vstd::prelude::*;
use vstd::pervasive::unreached;
use vstd::string::StringExecFns;
use crate::client::{bulk_url_text, Client};
use crate::json::{
    field_models_prefix, lemma_field_models_prefix_index, lemma_field_models_prefix_len,
    lemma_models_prefix_index, lemma_models_prefix_len, models_prefix, Json, JsonValue,
};

verus! {

/// The action of a batch request.
pub enum BulkAction {
    Delete,
    AppendStrict,
    Update,
}

impl BulkAction {
    /// The action name as it appears in the payload.
    pub open spec fn text(self) -> Seq<char> {
        match self {
            BulkAction::Delete => "delete"@,
            BulkAction::AppendStrict => "append_strict"@,
            BulkAction::Update => "update"@,
        }
    }

    /// The wire name of the action.
    pub fn as_str(&self) -> (r: &'static str)
        ensures
            r@ == self.text(),
    {
        match self {
            BulkAction::Delete => "delete",
            BulkAction::AppendStrict => "append_strict",
            BulkAction::Update => "update",
        }
    }
}

/// The models of a whole sequence of documents.
pub open spec fn models_of(items: Seq<JsonValue>) -> Seq<Json> {
    models_prefix(items, items.len() as int)
}

/// The batch payload for `action` over `entities`:
/// `{actionType: ..., entities: [...]}`.
pub open spec fn bulk_payload_model(action: BulkAction, entities: Seq<Json>) -> Json {
    Json::Object(
        seq![
            ("actionType"@, Json::Text(action.text())),
            ("entities"@, Json::Array(entities)),
        ],
    )
}

/// Builds the single POST body every batch operation sends.
pub fn bulk_payload(action: BulkAction, entities: Vec<JsonValue>) -> (p: JsonValue)
    ensures
        p.model() == bulk_payload_model(action, models_of(entities@)),
{
    let ghost entities_view = entities@;
    let fields: Vec<(String, JsonValue)> = vec![
        (String::from_str("actionType"), JsonValue::String(action.as_str().to_owned())),
        (String::from_str("entities"), JsonValue::Array(entities)),
    ];
    let ghost fields_view = fields@;
    let p = JsonValue::Object(fields);
    proof {
        lemma_field_models_prefix_len(fields_view, 2);
        lemma_field_models_prefix_index(fields_view, 2, 0);
        lemma_field_models_prefix_index(fields_view, 2, 1);
        assert(field_models_prefix(fields_view, 2) =~= seq![
            ("actionType"@, Json::Text(action.text())),
            ("entities"@, Json::Array(models_of(entities_view))),
        ]);
    }
    p
}

/// The `id` of an entity document, when it is an object whose `id` is a
/// JSON string.
pub open spec fn entity_id(e: Json) -> Option<Seq<char>> {
    match e.get("id"@) {
        Option::Some(v) => v.as_text(),
        Option::None => Option::None,
    }
}

/// Whether an entity document carries a string `id`.
pub open spec fn has_string_id(e: Json) -> bool {
    entity_id(e) is Some
}

/// The projection of an entity down to `{id: ...}`: everything else is
/// dropped from a delete payload.
pub open spec fn id_only(e: Json) -> Json {
    match entity_id(e) {
        Option::Some(id) => Json::Object(seq![("id"@, Json::Text(id))]),
        Option::None => Json::Null,
    }
}

/// Projects each fetched entity down to its identifier, the shape a bulk
/// delete sends.
pub fn delete_projection(entities: &Vec<JsonValue>) -> (ids: Vec<JsonValue>)
    requires
        forall|i: int|
            0 <= i < entities@.len() ==> has_string_id(#[trigger] entities@[i].model()),
    ensures
        ids@.len() == entities@.len(),
        forall|i: int|
            0 <= i < ids@.len() ==> #[trigger] ids@[i].model() == id_only(entities@[i].model()),
{
    let id_key = String::from_str("id");
    let mut ids: Vec<JsonValue> = Vec::new();
    let n = entities.len();
    let mut idx: usize = 0;
    while idx < n
        invariant
            n == entities@.len(),
            0 <= idx <= n,
            id_key@ == "id"@,
            ids@.len() == idx,
            forall|i: int|
                0 <= i < entities@.len() ==> has_string_id(#[trigger] entities@[i].model()),
            forall|i: int|
                0 <= i < idx ==> #[trigger] ids@[i].model() == id_only(entities@[i].model()),
        decreases n - idx,
    {
        let e = &entities[idx];
        let id: &String = match e.get(&id_key) {
            Option::Some(v) => match v.as_str() {
                Option::Some(s) => s,
                Option::None => unreached(),
            },
            Option::None => unreached(),
        };
        let fields: Vec<(String, JsonValue)> = vec![
            (String::from_str("id"), JsonValue::String(id.clone())),
        ];
        let ghost fields_view = fields@;
        ids.push(JsonValue::Object(fields));
        proof {
            lemma_field_models_prefix_len(fields_view, 1);
            lemma_field_models_prefix_index(fields_view, 1, 0);
            assert(field_models_prefix(fields_view, 1) =~= seq![
                ("id"@, Json::Text(id@)),
            ]);
        }
        idx = idx + 1;
    }
    ids
}

/// One batch request, ready for the transport: the URL and the POST body.
pub struct BulkRequest {
    pub url: String,
    pub payload: JsonValue,
}

impl Client {
    /// The request that uploads `entities` with broker-side create
    /// semantics (`append_strict`: it fails on an entity that exists).
    pub fn upload_request(&self, entities: Vec<JsonValue>, key_values: bool) -> (r: BulkRequest)
        ensures
            r.url@ == bulk_url_text(self.endpoint@, key_values),
            r.payload.model() == bulk_payload_model(
                BulkAction::AppendStrict,
                models_of(entities@),
            ),
    {
        BulkRequest {
            url: self.bulk_url(key_values),
            payload: bulk_payload(BulkAction::AppendStrict, entities),
        }
    }

    /// The request that updates `entities` in place.
    pub fn update_request(&self, entities: Vec<JsonValue>, key_values: bool) -> (r: BulkRequest)
        ensures
            r.url@ == bulk_url_text(self.endpoint@, key_values),
            r.payload.model() == bulk_payload_model(BulkAction::Update, models_of(entities@)),
    {
        BulkRequest {
            url: self.bulk_url(key_values),
            payload: bulk_payload(BulkAction::Update, entities),
        }
    }

    /// The request that deletes every fetched entity: each is projected down
    /// to `{id}`, and the URL never carries a query string.
    pub fn delete_request(&self, fetched: &Vec<JsonValue>) -> (r: BulkRequest)
        requires
            forall|i: int|
                0 <= i < fetched@.len() ==> has_string_id(#[trigger] fetched@[i].model()),
        ensures
            r.url@ == bulk_url_text(self.endpoint@, false),
            r.payload.model() == bulk_payload_model(
                BulkAction::Delete,
                fetched@.map_values(|e: JsonValue| id_only(e.model())),
            ),
    {
        let ids = delete_projection(fetched);
        let ghost ids_view = ids@;
        let r = BulkRequest {
            url: self.bulk_url(false),
            payload: bulk_payload(BulkAction::Delete, ids),
        };
        proof {
            lemma_models_prefix_len(ids_view, ids_view.len() as int);
            assert forall|i: int| 0 <= i < ids_view.len() implies #[trigger] models_of(
                ids_view,
            )[i] == id_only(fetched@[i].model()) by {
                lemma_models_prefix_index(ids_view, ids_view.len() as int, i);
            }
            assert(models_of(ids_view) =~= fetched@.map_values(
                |e: JsonValue| id_only(e.model()),
            ));
        }
        r
    }
}

} // verus!
