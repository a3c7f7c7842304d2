//! The list of models that a client may use.
use vstd::prelude::*;
use crate::json;
use crate::json::{Json, JsonObject, JsonTree};

verus! {

/// One model of the list.
#[derive(Debug)]
pub struct Model {
    pub id: String,
    /// When the model was created, in seconds of Unix time.
    pub created: u32,
    pub object: String,
    pub owned_by: String,
}

/// The list of models.
#[derive(Debug)]
pub struct ListModelResponse {
    pub object: String,
    pub data: Vec<Model>,
}

impl Model {
    /// The entry for a model.
    pub open spec fn lists(self, id: Seq<char>, created: u32) -> bool {
        self.id@ == id && self.created == created && self.object@ == "model"@ && self.owned_by@
            == "None"@
    }

    /// The entry for a model.
    pub fn from_target(id: &str, created: u32) -> (model: Model)
        ensures
            model.lists(id@, created),
    {
        Model {
            id: id.to_owned(),
            created,
            object: "model".to_owned(),
            owned_by: "None".to_owned(),
        }
    }

    /// The document for a model.
    pub open spec fn document(self) -> JsonTree {
        JsonTree::Object(
            Map::<Seq<char>, JsonTree>::empty().insert("id"@, JsonTree::Text(self.id@)).insert(
                "created"@,
                JsonTree::Unsigned(self.created as u64),
            ).insert("object"@, JsonTree::Text(self.object@)).insert(
                "owned_by"@,
                JsonTree::Text(self.owned_by@),
            ),
        )
    }

    /// The document for a model.
    pub fn to_json(self) -> (value: Json)
        ensures
            value@ == self.document(),
    {
        let mut object = JsonObject::new();
        object.insert("id", Json::Text(self.id));
        object.insert("created", Json::Unsigned(self.created as u64));
        object.insert("object", Json::Text(self.object));
        object.insert("owned_by", Json::Text(self.owned_by));
        Json::Object(object)
    }
}

impl ListModelResponse {
    /// The list for some names, in their order.
    pub fn from_model_names(names: &Vec<String>, created: u32) -> (list: ListModelResponse)
        ensures
            list.object@ == "list"@,
            list.data@.len() == names@.len(),
            forall|i: int|
                0 <= i < names@.len() ==> (#[trigger] list.data@[i]).lists(names@[i]@, created),
    {
        let mut data: Vec<Model> = Vec::new();
        let mut i: usize = 0;
        while i < names.len()
            invariant
                i <= names.len(),
                data@.len() == i,
                forall|k: int| 0 <= k < i ==> (#[trigger] data@[k]).lists(names@[k]@, created),
            decreases names.len() - i,
        {
            data.push(Model::from_target(names[i].as_str(), created));
            i = i + 1;
        }
        ListModelResponse { object: "list".to_owned(), data }
    }

    /// The document for the list.
    pub open spec fn document(self) -> JsonTree {
        JsonTree::Object(
            Map::<Seq<char>, JsonTree>::empty().insert("object"@, JsonTree::Text(self.object@)).insert(
                "data"@,
                JsonTree::Array(Seq::new(self.data@.len(), |i: int| self.data@[i].document())),
            ),
        )
    }

    /// The document for the list.
    pub fn to_json(self) -> (value: Json)
        ensures
            value@ == self.document(),
    {
        let ghost all = self.data@;
        let ghost whole = self;
        let mut items: Vec<Json> = Vec::new();
        for model in it: self.data.into_iter()
            invariant
                it.seq() == all,
                items@.len() == it.index(),
                forall|k: int| 0 <= k < items@.len() ==> (#[trigger] items@[k])@ == all[k].document(),
        {
            items.push(model.to_json());
        }
        assert(json::trees(items@) =~= Seq::new(all.len(), |i: int| all[i].document()));
        let mut object = JsonObject::new();
        object.insert("object", Json::Text(self.object));
        object.insert("data", Json::Array(items));
        Json::Object(object)
    }
}

/// The document of a model tells its id, when it was made, what it is and whose; nothing else.
pub proof fn law_document_of_a_model(model: Model, key: Seq<char>)
    ensures
        model.document().member("id"@) == Some(JsonTree::Text(model.id@)),
        model.document().member("created"@) == Some(JsonTree::Unsigned(model.created as u64)),
        model.document().member("object"@) == Some(JsonTree::Text(model.object@)),
        model.document().member("owned_by"@) == Some(JsonTree::Text(model.owned_by@)),
        key != "id"@ && key != "created"@ && key != "object"@ && key != "owned_by"@
            ==> model.document().member(key) is None,
{
    reveal_strlit("id");
    reveal_strlit("created");
    reveal_strlit("object");
    reveal_strlit("owned_by");
    assert("id"@.len() == 2);
    assert("created"@.len() == 7);
    assert("object"@.len() == 6);
    assert("owned_by"@.len() == 8);
}

/// The document of a list of models holds the documents of all of them, in order.
pub proof fn law_document_of_a_list(list: ListModelResponse, i: int)
    ensures
        list.document().member("object"@) == Some(JsonTree::Text(list.object@)),
        list.document().member("data"@) matches Some(JsonTree::Array(items)) && items.len()
            == list.data@.len() && (0 <= i < items.len() ==> items[i] == list.data@[i].document()),
{
    reveal_strlit("object");
    reveal_strlit("data");
    assert("object"@.len() != "data"@.len());
}

} // verus!
