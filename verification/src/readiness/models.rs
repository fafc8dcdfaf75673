//! The models that an agent offers.
use vstd::prelude::*;

use crate::json::{Json, JsonTree};
use crate::text;

verus! {

/// A model that an agent offers.
#[derive(Debug)]
pub struct AgentModelInfo {
    pub id: String,
    pub name: Option<String>,
    pub description: Option<String>,
}

/// What the description of a model holds.
#[verifier::ext_equal]
pub struct ModelInfo {
    pub id: Seq<char>,
    pub name: Option<Seq<char>>,
    pub description: Option<Seq<char>>,
}

impl View for AgentModelInfo {
    type V = ModelInfo;

    open spec fn view(&self) -> ModelInfo {
        ModelInfo {
            id: self.id@,
            name: text::opt_text(self.name),
            description: text::opt_text(self.description),
        }
    }
}

/// An agent and the models that it offers.
#[derive(Debug)]
pub struct AgentModelsResponse {
    pub agent_name: String,
    pub agent_version: String,
    pub models: Vec<AgentModelInfo>,
    /// The model that the agent uses when it is told none.
    pub agent_default_model: Option<String>,
    /// The model that was chosen for the agent.
    pub selected_model: Option<String>,
    pub supports_switching: bool,
}

/// What a list of models holds.
#[verifier::ext_equal]
pub struct ModelsResponse {
    pub agent_name: Seq<char>,
    pub agent_version: Seq<char>,
    pub models: Seq<ModelInfo>,
    pub agent_default_model: Option<Seq<char>>,
    pub selected_model: Option<Seq<char>>,
    pub supports_switching: bool,
}

/// What the models of a list hold.
pub open spec fn model_views(v: Seq<AgentModelInfo>) -> Seq<ModelInfo> {
    v.map_values(|m: AgentModelInfo| m@)
}

impl View for AgentModelsResponse {
    type V = ModelsResponse;

    open spec fn view(&self) -> ModelsResponse {
        ModelsResponse {
            agent_name: self.agent_name@,
            agent_version: self.agent_version@,
            models: model_views(self.models@),
            agent_default_model: text::opt_text(self.agent_default_model),
            selected_model: text::opt_text(self.selected_model),
            supports_switching: self.supports_switching,
        }
    }
}

/// The model that a value of a configuration option stands for.
pub open spec fn option_model(value: JsonTree) -> Option<ModelInfo> {
    match value.member("value"@).text() {
        Some(id) => Some(
            ModelInfo { id, name: value.member("displayName"@).text(), description: None },
        ),
        None => None,
    }
}

/// The model that an entry of the available models stands for.
pub open spec fn listed_model(value: JsonTree) -> Option<ModelInfo> {
    match value.member("modelId"@).text() {
        Some(id) => Some(
            ModelInfo {
                id,
                name: value.member("name"@).text(),
                description: value.member("description"@).text(),
            },
        ),
        None => None,
    }
}

/// The models that the values stand for, in their order.
pub open spec fn models_of(
    values: Seq<JsonTree>,
    read: spec_fn(JsonTree) -> Option<ModelInfo>,
) -> Seq<ModelInfo>
    decreases values.len(),
{
    if values.len() == 0 {
        Seq::empty()
    } else {
        match read(values.last()) {
            Some(model) => models_of(values.drop_last(), read).push(model),
            None => models_of(values.drop_last(), read),
        }
    }
}

/// The values of a configuration option that chooses a model; none of any other option.
pub open spec fn model_values(option: JsonTree) -> Seq<JsonTree> {
    if option.member("category"@).text() == Some("model"@) {
        option.member("options"@).items()
    } else {
        Seq::empty()
    }
}

/// The values of all configuration options that choose a model.
pub open spec fn all_model_values(options: Seq<JsonTree>) -> Seq<JsonTree>
    decreases options.len(),
{
    if options.len() == 0 {
        Seq::empty()
    } else {
        all_model_values(options.drop_last()) + model_values(options.last())
    }
}

/// All models that an answer names, those of the configuration options first.
pub open spec fn named_models(raw: JsonTree) -> Seq<ModelInfo> {
    models_of(
        all_model_values(raw.member("stable"@).member("configOptions"@).items()),
        |v: JsonTree| option_model(v),
    ) + models_of(
        raw.member("unstable"@).member("availableModels"@).items(),
        |v: JsonTree| listed_model(v),
    )
}

/// Whether a list has a model of this id.
pub open spec fn has_id(models: Seq<ModelInfo>, id: Seq<char>) -> bool {
    exists|i: int| 0 <= i < models.len() && (#[trigger] models[i]).id == id
}

/// The list with the model, unless it has one of that id.
pub open spec fn with_new(models: Seq<ModelInfo>, model: ModelInfo) -> Seq<ModelInfo> {
    if has_id(models, model.id) {
        models
    } else {
        models.push(model)
    }
}

/// The first model of each id, in the order of the list.
pub open spec fn first_of_each_id(named: Seq<ModelInfo>) -> Seq<ModelInfo>
    decreases named.len(),
{
    if named.len() == 0 {
        Seq::empty()
    } else {
        with_new(first_of_each_id(named.drop_last()), named.last())
    }
}

/// A text that is there, or else "unknown".
pub open spec fn or_unknown(given: Option<Seq<char>>) -> Seq<char> {
    match given {
        Some(s) => s,
        None => "unknown"@,
    }
}

/// What an agent's answer says of its models.
pub open spec fn normalized_models(raw: JsonTree, persisted: Option<Seq<char>>) -> ModelsResponse {
    let models = first_of_each_id(named_models(raw));
    ModelsResponse {
        agent_name: or_unknown(raw.member("agent"@).member("name"@).text()),
        agent_version: or_unknown(raw.member("agent"@).member("version"@).text()),
        models,
        agent_default_model: raw.member("unstable"@).member("currentModelId"@).text(),
        selected_model: persisted,
        supports_switching: models.len() > 0,
    }
}

/// A text that is there, or else "unknown".
fn text_or_unknown(given: Option<String>) -> (r: String)
    ensures
        r@ == or_unknown(text::opt_text(given)),
{
    match given {
        Some(s) => s,
        None => "unknown".to_owned(),
    }
}

/// The text that a member of a member is.
fn nested_text(raw: &Json, outer: &str, inner: &str) -> (r: Option<String>)
    ensures
        text::opt_text(r) == raw.tree().member(outer@).member(inner@).text(),
{
    match raw.member(outer) {
        Some(value) => value.member_text(inner),
        None => None,
    }
}

/// Adds a model to the list, unless it has one of that id.
fn push_new(models: &mut Vec<AgentModelInfo>, model: AgentModelInfo)
    ensures
        model_views(final(models)@) == with_new(model_views(old(models)@), model@),
{
    let ghost seen = model_views(models@);
    let mut i: usize = 0;
    while i < models.len()
        invariant
            i <= models.len(),
            models@ == old(models)@,
            seen == model_views(models@),
            forall|j: int| 0 <= j < i ==> (#[trigger] seen[j]).id != model@.id,
        decreases models.len() - i,
    {
        assert(seen[i as int] == models@[i as int]@);
        if text::same(models[i].id.as_str(), model.id.as_str()) {
            return;
        }
        i += 1;
    }
    models.push(model);
    assert(model_views(models@) =~= seen.push(model@));
}

/// Adding the next model of a list to the first ones of each id gives those of the longer
/// list.
proof fn first_of_each_id_push(named: Seq<ModelInfo>, model: ModelInfo)
    ensures
        first_of_each_id(named.push(model)) == with_new(first_of_each_id(named), model),
{
    assert(named.push(model).drop_last() =~= named);
}

/// Reads models from the values of an option and adds the new ones.
fn add_option_models(
    models: &mut Vec<AgentModelInfo>,
    values: &Vec<Json>,
    Ghost(named): Ghost<Seq<ModelInfo>>,
)
    requires
        model_views(old(models)@) == first_of_each_id(named),
    ensures
        model_views(final(models)@) == first_of_each_id(
            named + models_of(
                Json::Array(*values).tree().items(),
                |v: JsonTree| option_model(v),
            ),
        ),
{
    let ghost seen = Json::Array(*values).tree().items();
    let ghost read = |v: JsonTree| option_model(v);
    let mut i: usize = 0;
    assert(named + models_of(seen.take(0), read) =~= named);
    while i < values.len()
        invariant
            i <= values.len(),
            seen == Json::Array(*values).tree().items(),
            seen.len() == values@.len(),
            read == (|v: JsonTree| option_model(v)),
            model_views(models@) == first_of_each_id(
                named + models_of(seen.take(i as int), read),
            ),
        decreases values.len() - i,
    {
        let value = &values[i];
        let ghost before = named + models_of(seen.take(i as int), read);
        proof {
            assert(seen.take(i + 1).drop_last() =~= seen.take(i as int));
            assert(seen.take(i + 1).last() == value.tree());
        }
        if let Some(id) = value.member_text("value") {
            let model = AgentModelInfo {
                id,
                name: value.member_text("displayName"),
                description: None,
            };
            proof {
                assert(option_model(value.tree()) == Some(model@));
                assert(named + models_of(seen.take(i + 1), read) =~= before.push(model@));
                first_of_each_id_push(before, model@);
            }
            push_new(models, model);
        }
        i += 1;
    }
    assert(seen.take(seen.len() as int) =~= seen);
}

/// Reads models from the list of the available ones and adds the new ones.
fn add_listed_models(
    models: &mut Vec<AgentModelInfo>,
    values: &Vec<Json>,
    Ghost(named): Ghost<Seq<ModelInfo>>,
)
    requires
        model_views(old(models)@) == first_of_each_id(named),
    ensures
        model_views(final(models)@) == first_of_each_id(
            named + models_of(
                Json::Array(*values).tree().items(),
                |v: JsonTree| listed_model(v),
            ),
        ),
{
    let ghost seen = Json::Array(*values).tree().items();
    let ghost read = |v: JsonTree| listed_model(v);
    let mut i: usize = 0;
    assert(named + models_of(seen.take(0), read) =~= named);
    while i < values.len()
        invariant
            i <= values.len(),
            seen == Json::Array(*values).tree().items(),
            seen.len() == values@.len(),
            read == (|v: JsonTree| listed_model(v)),
            model_views(models@) == first_of_each_id(
                named + models_of(seen.take(i as int), read),
            ),
        decreases values.len() - i,
    {
        let value = &values[i];
        let ghost before = named + models_of(seen.take(i as int), read);
        proof {
            assert(seen.take(i + 1).drop_last() =~= seen.take(i as int));
            assert(seen.take(i + 1).last() == value.tree());
        }
        if let Some(id) = value.member_text("modelId") {
            let model = AgentModelInfo {
                id,
                name: value.member_text("name"),
                description: value.member_text("description"),
            };
            proof {
                assert(listed_model(value.tree()) == Some(model@));
                assert(named + models_of(seen.take(i + 1), read) =~= before.push(model@));
                first_of_each_id_push(before, model@);
            }
            push_new(models, model);
        }
        i += 1;
    }
    assert(seen.take(seen.len() as int) =~= seen);
}

/// The models of two lists of values, one after the other, are those of the joined list.
proof fn models_of_joined(
    a: Seq<JsonTree>,
    b: Seq<JsonTree>,
    read: spec_fn(JsonTree) -> Option<ModelInfo>,
)
    ensures
        models_of(a + b, read) == models_of(a, read) + models_of(b, read),
    decreases b.len(),
{
    if b.len() == 0 {
        assert(a + b =~= a);
        assert(models_of(a, read) + models_of(b, read) =~= models_of(a, read));
    } else {
        models_of_joined(a, b.drop_last(), read);
        assert((a + b).drop_last() =~= a + b.drop_last());
        assert((a + b).last() == b.last());
        if let Some(model) = read(b.last()) {
            assert((models_of(a, read) + models_of(b.drop_last(), read)).push(model)
                =~= models_of(a, read) + models_of(b.drop_last(), read).push(model));
        }
    }
}

/// Whether a configuration option chooses a model.
fn chooses_model(option: &Json) -> (r: bool)
    ensures
        r == (option.tree().member("category"@).text() == Some("model"@)),
{
    match option.member_text("category") {
        Some(category) => text::same(category.as_str(), "model"),
        None => false,
    }
}

/// The models that the configuration options name.
fn configured_models(options: &Vec<Json>) -> (r: Vec<AgentModelInfo>)
    ensures
        model_views(r@) == first_of_each_id(
            models_of(
                all_model_values(Json::Array(*options).tree().items()),
                |v: JsonTree| option_model(v),
            ),
        ),
{
    let ghost seen = Json::Array(*options).tree().items();
    let ghost read = |v: JsonTree| option_model(v);
    let mut models: Vec<AgentModelInfo> = Vec::new();
    let mut i: usize = 0;
    assert(model_views(models@) =~= Seq::empty());
    assert(all_model_values(seen.take(0)) =~= Seq::empty());
    assert(models_of(all_model_values(seen.take(0)), read) =~= Seq::empty());
    while i < options.len()
        invariant
            i <= options.len(),
            seen == Json::Array(*options).tree().items(),
            seen.len() == options@.len(),
            read == (|v: JsonTree| option_model(v)),
            model_views(models@) == first_of_each_id(
                models_of(all_model_values(seen.take(i as int)), read),
            ),
        decreases options.len() - i,
    {
        let option = &options[i];
        let ghost before = all_model_values(seen.take(i as int));
        proof {
            assert(seen.take(i + 1).drop_last() =~= seen.take(i as int));
            assert(seen.take(i + 1).last() == option.tree());
            models_of_joined(before, model_values(option.tree()), read);
        }
        let mut added = false;
        if chooses_model(option) {
            if let Some(value) = option.member("options") {
                if let Some(values) = value.as_array() {
                    add_option_models(&mut models, values, Ghost(models_of(before, read)));
                    added = true;
                }
            }
        }
        proof {
            if !added {
                assert(model_values(option.tree()) =~= Seq::empty());
                assert(before + model_values(option.tree()) =~= before);
            }
        }
        i += 1;
    }
    assert(seen.take(seen.len() as int) =~= seen);
    models
}

/// Reads an agent's answer on its models. Of models with one id the first counts;
/// `persisted_model` is the model that was chosen for the agent.
pub fn normalize_agent_models(raw: &Json, persisted_model: Option<String>) -> (r:
    AgentModelsResponse)
    ensures
        r@ == normalized_models(raw.tree(), text::opt_text(persisted_model)),
{
    let agent_name = text_or_unknown(nested_text(raw, "agent", "name"));
    let agent_version = text_or_unknown(nested_text(raw, "agent", "version"));
    let ghost stable = raw.tree().member("stable"@).member("configOptions"@).items();
    let ghost read = |v: JsonTree| option_model(v);
    let ghost named = models_of(all_model_values(stable), read);
    let options: Option<&Vec<Json>> = match raw.member("stable") {
        Some(value) => match value.member("configOptions") {
            Some(list) => list.as_array(),
            None => None,
        },
        None => None,
    };
    let mut models: Vec<AgentModelInfo> = match options {
        Some(list) => configured_models(list),
        None => Vec::new(),
    };
    proof {
        if options is None {
            assert(stable =~= Seq::empty());
            assert(all_model_values(stable) =~= Seq::empty());
            assert(named =~= Seq::empty());
            assert(model_views(models@) =~= first_of_each_id(named));
        }
    }
    let ghost listed = raw.tree().member("unstable"@).member("availableModels"@).items();
    let available: Option<&Vec<Json>> = match raw.member("unstable") {
        Some(value) => match value.member("availableModels") {
            Some(list) => list.as_array(),
            None => None,
        },
        None => None,
    };
    match available {
        Some(list) => add_listed_models(&mut models, list, Ghost(named)),
        None => proof {
            assert(listed =~= Seq::empty());
            assert(named + models_of(listed, |v: JsonTree| listed_model(v)) =~= named);
        },
    }
    let agent_default_model = nested_text(raw, "unstable", "currentModelId");
    AgentModelsResponse {
        agent_name,
        agent_version,
        supports_switching: models.len() > 0,
        models,
        agent_default_model,
        selected_model: persisted_model,
    }
}

/// The first models of each id have different ids, each is one that was named, and there is
/// one for each id that was named.
pub proof fn law_each_model_is_offered_once(raw: JsonTree, persisted: Option<Seq<char>>)
    ensures
        ({
            let models = normalized_models(raw, persisted).models;
            let named = named_models(raw);
            &&& forall|i: int, j: int|
                0 <= i < j < models.len() ==> (#[trigger] models[i]).id != (
                #[trigger] models[j]).id
            &&& forall|i: int| 0 <= i < models.len() ==> named.contains(#[trigger] models[i])
            &&& forall|k: int|
                0 <= k < named.len() ==> has_id(models, (#[trigger] named[k]).id)
        }),
{
    first_of_each_id_holds(named_models(raw));
}

proof fn first_of_each_id_holds(named: Seq<ModelInfo>)
    ensures
        ({
            let models = first_of_each_id(named);
            &&& forall|i: int, j: int|
                0 <= i < j < models.len() ==> (#[trigger] models[i]).id != (
                #[trigger] models[j]).id
            &&& forall|i: int| 0 <= i < models.len() ==> named.contains(#[trigger] models[i])
            &&& forall|k: int|
                0 <= k < named.len() ==> has_id(models, (#[trigger] named[k]).id)
        }),
    decreases named.len(),
{
    if named.len() > 0 {
        let rest = named.drop_last();
        first_of_each_id_holds(rest);
        let models = first_of_each_id(rest);
        let all = first_of_each_id(named);
        assert forall|i: int| 0 <= i < all.len() implies named.contains(#[trigger] all[i]) by {
            if i < models.len() {
                assert(rest.contains(models[i]));
                let k = choose|k: int| 0 <= k < rest.len() && rest[k] == models[i];
                assert(named[k] == all[i]);
            } else {
                assert(named[named.len() - 1] == all[i]);
            }
        }
        assert forall|k: int| 0 <= k < named.len() implies has_id(
            all,
            (#[trigger] named[k]).id,
        ) by {
            if k < rest.len() {
                assert(has_id(models, rest[k].id));
                let i = choose|i: int| 0 <= i < models.len() && models[i].id == rest[k].id;
                assert(all[i].id == named[k].id);
            } else if !has_id(models, named.last().id) {
                assert(all[models.len() as int].id == named[k].id);
            }
        }
    }
}

/// The models have the full ids that the answer gives; where every id differs, they are
/// exactly the models that were named, in their order.
pub proof fn law_distinct_models_are_all_kept(raw: JsonTree, persisted: Option<Seq<char>>)
    requires
        forall|i: int, j: int|
            0 <= i < j < named_models(raw).len() ==> (#[trigger] named_models(raw)[i]).id != (
            #[trigger] named_models(raw)[j]).id,
    ensures
        normalized_models(raw, persisted).models == named_models(raw),
{
    distinct_are_kept(named_models(raw));
}

proof fn distinct_are_kept(named: Seq<ModelInfo>)
    requires
        forall|i: int, j: int|
            0 <= i < j < named.len() ==> (#[trigger] named[i]).id != (#[trigger] named[j]).id,
    ensures
        first_of_each_id(named) == named,
    decreases named.len(),
{
    if named.len() == 0 {
        assert(named =~= Seq::empty());
    } else {
        distinct_are_kept(named.drop_last());
        assert(named =~= named.drop_last().push(named.last()));
    }
}

/// The values of the options that choose a model are all there, whatever options stand between
/// them, and no others are.
proof fn model_values_are_those_of_options(options: Seq<JsonTree>, v: JsonTree)
    ensures
        all_model_values(options).contains(v) <==> exists|i: int, j: int|
            #![trigger options[i].member("options"@).items()[j]]
            {
                &&& 0 <= i < options.len()
                &&& options[i].member("category"@).text() == Some("model"@)
                &&& 0 <= j < options[i].member("options"@).items().len()
                &&& options[i].member("options"@).items()[j] == v
            },
    decreases options.len(),
{
    let all = all_model_values(options);
    if options.len() > 0 {
        let rest = options.drop_last();
        model_values_are_those_of_options(rest, v);
        let before = all_model_values(rest);
        let own = model_values(options.last());
        if all.contains(v) {
            let k = all.index_of(v);
            if k < before.len() {
                assert(before[k] == v);
                assert(before.contains(v));
                let (i, j) = choose|i: int, j: int|
                    #![trigger rest[i].member("options"@).items()[j]]
                    {
                        &&& 0 <= i < rest.len()
                        &&& rest[i].member("category"@).text() == Some("model"@)
                        &&& 0 <= j < rest[i].member("options"@).items().len()
                        &&& rest[i].member("options"@).items()[j] == v
                    };
                assert(options[i].member("options"@).items()[j] == v);
            } else {
                let i = options.len() - 1;
                assert(options[i].member("options"@).items()[k - before.len()] == v);
            }
        }
        if exists|i: int, j: int|
            #![trigger options[i].member("options"@).items()[j]]
            {
                &&& 0 <= i < options.len()
                &&& options[i].member("category"@).text() == Some("model"@)
                &&& 0 <= j < options[i].member("options"@).items().len()
                &&& options[i].member("options"@).items()[j] == v
            } {
            let (i, j) = choose|i: int, j: int|
                #![trigger options[i].member("options"@).items()[j]]
                {
                    &&& 0 <= i < options.len()
                    &&& options[i].member("category"@).text() == Some("model"@)
                    &&& 0 <= j < options[i].member("options"@).items().len()
                    &&& options[i].member("options"@).items()[j] == v
                };
            if i < rest.len() {
                assert(rest[i].member("options"@).items()[j] == v);
                let k = before.index_of(v);
                assert(all[k] == v);
            } else {
                assert(own[j] == v);
                assert(all[before.len() + j] == v);
            }
        }
    }
}

/// The models of some values are those that each value stands for.
proof fn models_of_members(
    values: Seq<JsonTree>,
    read: spec_fn(JsonTree) -> Option<ModelInfo>,
    m: ModelInfo,
)
    ensures
        models_of(values, read).contains(m) <==> exists|k: int|
            0 <= k < values.len() && read(#[trigger] values[k]) == Some(m),
    decreases values.len(),
{
    let all = models_of(values, read);
    if values.len() > 0 {
        let rest = values.drop_last();
        models_of_members(rest, read, m);
        let before = models_of(rest, read);
        if all.contains(m) {
            let k = all.index_of(m);
            if k < before.len() {
                assert(before[k] == m);
                let i = choose|i: int| 0 <= i < rest.len() && read(#[trigger] rest[i]) == Some(m);
                assert(read(values[i]) == Some(m));
            } else {
                assert(read(values[values.len() - 1]) == Some(m));
            }
        }
        if exists|k: int| 0 <= k < values.len() && read(#[trigger] values[k]) == Some(m) {
            let k = choose|k: int| 0 <= k < values.len() && read(#[trigger] values[k]) == Some(m);
            if k < rest.len() {
                assert(read(rest[k]) == Some(m));
                let i = before.index_of(m);
                assert(all[i] == m);
            } else {
                assert(all[before.len() as int] == m);
            }
        }
    }
}

/// Whether a value of an option that chooses a model, at whatever place the option stands, or an
/// entry of the available models, gives this model.
pub open spec fn gives_model(raw: JsonTree, m: ModelInfo) -> bool {
    let options = raw.member("stable"@).member("configOptions"@).items();
    let listed = raw.member("unstable"@).member("availableModels"@).items();
    ||| exists|i: int, j: int|
        #![trigger options[i].member("options"@).items()[j]]
        {
            let v = options[i].member("options"@).items()[j];
            &&& 0 <= i < options.len()
            &&& options[i].member("category"@).text() == Some("model"@)
            &&& 0 <= j < options[i].member("options"@).items().len()
            &&& v.member("value"@).text() == Some(m.id)
            &&& v.member("displayName"@).text() == m.name
            &&& m.description is None
        }
    ||| exists|k: int|
        {
            &&& 0 <= k < listed.len()
            &&& (#[trigger] listed[k]).member("modelId"@).text() == Some(m.id)
            &&& listed[k].member("name"@).text() == m.name
            &&& listed[k].member("description"@).text() == m.description
        }
}

proof fn named_are_given(raw: JsonTree, m: ModelInfo)
    ensures
        named_models(raw).contains(m) <==> gives_model(raw, m),
{
    let options = raw.member("stable"@).member("configOptions"@).items();
    let listed = raw.member("unstable"@).member("availableModels"@).items();
    let values = all_model_values(options);
    let f = |v: JsonTree| option_model(v);
    let g = |v: JsonTree| listed_model(v);
    let a = models_of(values, f);
    let b = models_of(listed, g);
    models_of_members(values, f, m);
    models_of_members(listed, g, m);
    let named = named_models(raw);
    assert(named == a + b);
    assert(named.contains(m) <==> a.contains(m) || b.contains(m)) by {
        if a.contains(m) {
            assert(named[a.index_of(m)] == m);
        }
        if b.contains(m) {
            assert(named[a.len() + b.index_of(m)] == m);
        }
        if named.contains(m) {
            let k = named.index_of(m);
            if k < a.len() {
                assert(a[k] == m);
            } else {
                assert(b[k - a.len()] == m);
            }
        }
    }
    if a.contains(m) {
        let k = choose|k: int| 0 <= k < values.len() && f(#[trigger] values[k]) == Some(m);
        let v = values[k];
        model_values_are_those_of_options(options, v);
        assert(values.contains(v));
    }
    if exists|i: int, j: int|
        #![trigger options[i].member("options"@).items()[j]]
        {
            let v = options[i].member("options"@).items()[j];
            &&& 0 <= i < options.len()
            &&& options[i].member("category"@).text() == Some("model"@)
            &&& 0 <= j < options[i].member("options"@).items().len()
            &&& v.member("value"@).text() == Some(m.id)
            &&& v.member("displayName"@).text() == m.name
            &&& m.description is None
        } {
        let (i, j) = choose|i: int, j: int|
            #![trigger options[i].member("options"@).items()[j]]
            {
                let v = options[i].member("options"@).items()[j];
                &&& 0 <= i < options.len()
                &&& options[i].member("category"@).text() == Some("model"@)
                &&& 0 <= j < options[i].member("options"@).items().len()
                &&& v.member("value"@).text() == Some(m.id)
                &&& v.member("displayName"@).text() == m.name
                &&& m.description is None
            };
        let v = options[i].member("options"@).items()[j];
        model_values_are_those_of_options(options, v);
        let k = values.index_of(v);
        assert(f(values[k]) == Some(m));
    }
    if b.contains(m) {
        let k = choose|k: int| 0 <= k < listed.len() && g(#[trigger] listed[k]) == Some(m);
        assert(listed[k].member("modelId"@).text() == Some(m.id));
    }
    if exists|k: int|
        {
            &&& 0 <= k < listed.len()
            &&& (#[trigger] listed[k]).member("modelId"@).text() == Some(m.id)
            &&& listed[k].member("name"@).text() == m.name
            &&& listed[k].member("description"@).text() == m.description
        } {
        let k = choose|k: int|
            {
                &&& 0 <= k < listed.len()
                &&& (#[trigger] listed[k]).member("modelId"@).text() == Some(m.id)
                &&& listed[k].member("name"@).text() == m.name
                &&& listed[k].member("description"@).text() == m.description
            };
        assert(g(listed[k]) == Some(m));
    }
}

/// Every value of every option that chooses a model is offered, at whatever place the option and
/// the value stand, and so is every available model; and nothing else is offered, each id once.
/// The agent can switch models, and is ready, exactly where there is one.
pub proof fn law_every_named_model_is_offered(raw: JsonTree, persisted: Option<Seq<char>>)
    ensures
        ({
            let r = normalized_models(raw, persisted);
            &&& forall|m: ModelInfo| #[trigger]
                gives_model(raw, m) ==> exists|k: int|
                    0 <= k < r.models.len() && (#[trigger] r.models[k]).id == m.id
            &&& forall|k: int|
                0 <= k < r.models.len() ==> gives_model(raw, #[trigger] r.models[k])
            &&& forall|j: int, k: int|
                0 <= j < k < r.models.len() ==> (#[trigger] r.models[j]).id != (
                #[trigger] r.models[k]).id
            &&& r.supports_switching <==> exists|m: ModelInfo| #[trigger] gives_model(raw, m)
            &&& r.selected_model == persisted
            &&& r.agent_default_model == raw.member("unstable"@).member("currentModelId"@).text()
            &&& r.agent_name == match raw.member("agent"@).member("name"@).text() {
                Some(s) => s,
                None => "unknown"@,
            }
            &&& r.agent_version == match raw.member("agent"@).member("version"@).text() {
                Some(s) => s,
                None => "unknown"@,
            }
        }),
{
    let r = normalized_models(raw, persisted);
    let named = named_models(raw);
    law_each_model_is_offered_once(raw, persisted);
    assert forall|m: ModelInfo| #[trigger] gives_model(raw, m) implies exists|k: int|
        0 <= k < r.models.len() && (#[trigger] r.models[k]).id == m.id by {
        named_are_given(raw, m);
        let i = named.index_of(m);
        assert(named[i] == m);
        assert(has_id(r.models, named[i].id));
    }
    assert forall|k: int| 0 <= k < r.models.len() implies gives_model(
        raw,
        #[trigger] r.models[k],
    ) by {
        assert(named.contains(r.models[k]));
        named_are_given(raw, r.models[k]);
    }
    if r.supports_switching {
        assert(gives_model(raw, r.models[0]));
    }
}

/// Of several values with one id the first is offered: a model that is offered is described as it
/// was named first.
pub proof fn law_the_first_of_an_id_counts(raw: JsonTree, persisted: Option<Seq<char>>, i: int, k: int)
    requires
        0 <= i < named_models(raw).len(),
        forall|j: int| 0 <= j < i ==> (#[trigger] named_models(raw)[j]).id != named_models(raw)[i].id,
        0 <= k < normalized_models(raw, persisted).models.len(),
        normalized_models(raw, persisted).models[k].id == named_models(raw)[i].id,
    ensures
        normalized_models(raw, persisted).models[k] == named_models(raw)[i],
{
    first_counts(named_models(raw), i, k);
}

proof fn first_counts(named: Seq<ModelInfo>, i: int, k: int)
    requires
        0 <= i < named.len(),
        forall|j: int| 0 <= j < i ==> (#[trigger] named[j]).id != named[i].id,
        0 <= k < first_of_each_id(named).len(),
        first_of_each_id(named)[k].id == named[i].id,
    ensures
        first_of_each_id(named)[k] == named[i],
    decreases named.len(),
{
    let rest = named.drop_last();
    let before = first_of_each_id(rest);
    first_of_each_id_holds(rest);
    if k < before.len() {
        if i < rest.len() {
            first_counts(rest, i, k);
        } else {
            assert(rest.contains(before[k]));
            let j = rest.index_of(before[k]);
            assert(named[j].id == named[i].id);
        }
    } else if i < rest.len() {
        assert(has_id(before, rest[i].id));
    }
}

/// The values of all options are those of the first ones followed by those of the others, and the
/// models of values likewise; those of one option are its own values where it chooses a model, and
/// none otherwise. The models of the options come before the available ones.
pub proof fn law_models_stand_in_their_order(
    a: Seq<JsonTree>,
    b: Seq<JsonTree>,
    o: JsonTree,
    raw: JsonTree,
)
    ensures
        all_model_values(a + b) == all_model_values(a) + all_model_values(b),
        o.member("category"@).text() == Some("model"@) ==> all_model_values(seq![o]) == o.member(
            "options"@,
        ).items(),
        o.member("category"@).text() != Some("model"@) ==> all_model_values(seq![o]).len() == 0,
        models_of(a + b, |v: JsonTree| option_model(v)) == models_of(
            a,
            |v: JsonTree| option_model(v),
        ) + models_of(b, |v: JsonTree| option_model(v)),
        models_of(a + b, |v: JsonTree| listed_model(v)) == models_of(
            a,
            |v: JsonTree| listed_model(v),
        ) + models_of(b, |v: JsonTree| listed_model(v)),
        ({
            let configured = models_of(
                all_model_values(raw.member("stable"@).member("configOptions"@).items()),
                |v: JsonTree| option_model(v),
            );
            let listed = models_of(
                raw.member("unstable"@).member("availableModels"@).items(),
                |v: JsonTree| listed_model(v),
            );
            &&& named_models(raw).take(configured.len() as int) == configured
            &&& named_models(raw).skip(configured.len() as int) == listed
        }),
    decreases b.len(),
{
    models_of_joined(a, b, |v: JsonTree| option_model(v));
    models_of_joined(a, b, |v: JsonTree| listed_model(v));
    let one = seq![o];
    assert(one.drop_last() =~= Seq::empty());
    assert(all_model_values(one.drop_last()) =~= Seq::empty());
    assert(all_model_values(one) =~= model_values(o));
    if b.len() == 0 {
        assert(a + b =~= a);
        assert(all_model_values(a) + all_model_values(b) =~= all_model_values(a));
    } else {
        law_models_stand_in_their_order(a, b.drop_last(), o, raw);
        assert((a + b).drop_last() =~= a + b.drop_last());
        assert((a + b).last() == b.last());
        assert(all_model_values(a + b) =~= all_model_values(a) + all_model_values(b));
    }
    let configured = models_of(
        all_model_values(raw.member("stable"@).member("configOptions"@).items()),
        |v: JsonTree| option_model(v),
    );
    let listed = models_of(
        raw.member("unstable"@).member("availableModels"@).items(),
        |v: JsonTree| listed_model(v),
    );
    assert(named_models(raw) == configured + listed);
    assert(named_models(raw).take(configured.len() as int) =~= configured);
    assert(named_models(raw).skip(configured.len() as int) =~= listed);
}

} // verus!
