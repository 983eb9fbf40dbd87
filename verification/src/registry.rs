//! Models and providers by name.

use vstd::prelude::*;

use crate::keyed::{is_ascending, Keyed};
use crate::protocol::{CodecError, ResolvedModel};
use crate::text::{concat3, views};

verus! {

/// The models that can be asked for, the roles they have, the providers that
/// reach them, and the panels that judge a whole turn for some of them.
#[derive(Debug)]
pub struct ModelRegistry<P, J> {
    models: Keyed<ResolvedModel>,
    default_model: Option<ResolvedModel>,
    small_model: Option<ResolvedModel>,
    subagent_model: Option<ResolvedModel>,
    plan_model: Option<ResolvedModel>,
    providers: Keyed<P>,
    full_turn_judges: Keyed<J>,
}

#[verifier::reject_recursive_types(P)]
#[verifier::reject_recursive_types(J)]
pub ghost struct RegistryView<P, J> {
    pub models: Map<Seq<char>, ResolvedModel>,
    pub default_model: Option<ResolvedModel>,
    pub small_model: Option<ResolvedModel>,
    pub subagent_model: Option<ResolvedModel>,
    pub plan_model: Option<ResolvedModel>,
    pub providers: Map<Seq<char>, P>,
    pub full_turn_judges: Map<Seq<char>, J>,
}

impl<P, J> View for ModelRegistry<P, J> {
    type V = RegistryView<P, J>;

    closed spec fn view(&self) -> RegistryView<P, J> {
        RegistryView {
            models: self.models@,
            default_model: self.default_model,
            small_model: self.small_model,
            subagent_model: self.subagent_model,
            plan_model: self.plan_model,
            providers: self.providers@,
            full_turn_judges: self.full_turn_judges@,
        }
    }
}

impl<P, J> RegistryView<P, J> {
    /// A registry without anything in it.
    pub open spec fn nothing() -> RegistryView<P, J> {
        RegistryView {
            models: Map::empty(),
            default_model: None,
            small_model: None,
            subagent_model: None,
            plan_model: None,
            providers: Map::empty(),
            full_turn_judges: Map::empty(),
        }
    }

    /// The registry with one more model that can be asked for.
    pub open spec fn with_model(self, model: ResolvedModel) -> RegistryView<P, J> {
        RegistryView { models: self.models.insert(model.id@, model), ..self }
    }
}

/// The model of a role, or the default one.
pub open spec fn or_default(
    model: Option<ResolvedModel>,
    default_model: Option<ResolvedModel>,
) -> Option<ResolvedModel> {
    if model is Some {
        model
    } else {
        default_model
    }
}

/// A model is found, or it is said what is missing.
pub open spec fn is_found(
    found: Result<ResolvedModel, CodecError>,
    model: Option<ResolvedModel>,
    missing: Seq<char>,
) -> bool {
    match (found, model) {
        (Ok(found), Some(model)) => found == model,
        (Err(error), None) => error@ == missing,
        _ => false,
    }
}

fn find(model: &Option<ResolvedModel>, fallback: &Option<ResolvedModel>, missing: &str) -> (found:
    Result<ResolvedModel, CodecError>)
    ensures
        is_found(found, or_default(*model, *fallback), missing@),
{
    match model {
        Some(model) => Ok(model.clone()),
        None => match fallback {
            Some(model) => Ok(model.clone()),
            None => Err(CodecError::new(missing)),
        },
    }
}

impl<P, J> ModelRegistry<P, J> {
    pub fn new() -> (registry: ModelRegistry<P, J>)
        ensures
            registry@ == RegistryView::<P, J>::nothing(),
    {
        ModelRegistry {
            models: Keyed::new(),
            default_model: None,
            small_model: None,
            subagent_model: None,
            plan_model: None,
            providers: Keyed::new(),
            full_turn_judges: Keyed::new(),
        }
    }

    /// Makes a model resolvable by its identifier, without giving it a role.
    pub fn register_model(&mut self, model: ResolvedModel)
        ensures
            final(self)@ == old(self)@.with_model(model),
    {
        let id = model.id.clone();
        self.models.insert(&id, model);
    }

    /// Sets the default model and makes it resolvable by its identifier.
    pub fn set_default_model(&mut self, model: ResolvedModel)
        ensures
            final(self)@ == (RegistryView {
                default_model: Some(model),
                ..old(self)@.with_model(model)
            }),
    {
        self.register_model(model.clone());
        self.default_model = Some(model);
    }

    pub fn default_model(&self) -> (found: Result<ResolvedModel, CodecError>)
        ensures
            is_found(
                found,
                self@.default_model,
                "failed to resolve model: default model is not configured"@,
            ),
    {
        find(
            &self.default_model,
            &None,
            "failed to resolve model: default model is not configured",
        )
    }

    /// Sets the model for small tasks and makes it resolvable by its identifier.
    pub fn set_small_model(&mut self, model: ResolvedModel)
        ensures
            final(self)@ == (RegistryView {
                small_model: Some(model),
                ..old(self)@.with_model(model)
            }),
    {
        self.register_model(model.clone());
        self.small_model = Some(model);
    }

    /// The model for small tasks, or else the default model.
    pub fn small_model(&self) -> (found: Result<ResolvedModel, CodecError>)
        ensures
            is_found(
                found,
                or_default(self@.small_model, self@.default_model),
                "failed to resolve model: small model is not configured"@,
            ),
    {
        find(
            &self.small_model,
            &self.default_model,
            "failed to resolve model: small model is not configured",
        )
    }

    /// Sets the model for subagents and makes it resolvable by its identifier.
    pub fn set_subagent_model(&mut self, model: ResolvedModel)
        ensures
            final(self)@ == (RegistryView {
                subagent_model: Some(model),
                ..old(self)@.with_model(model)
            }),
    {
        self.register_model(model.clone());
        self.subagent_model = Some(model);
    }

    /// The model for subagents, or else the default model.
    pub fn subagent_model(&self) -> (found: Result<ResolvedModel, CodecError>)
        ensures
            is_found(
                found,
                or_default(self@.subagent_model, self@.default_model),
                "failed to resolve model: subagent model is not configured"@,
            ),
    {
        find(
            &self.subagent_model,
            &self.default_model,
            "failed to resolve model: subagent model is not configured",
        )
    }

    /// Sets the model for planning and makes it resolvable by its identifier.
    pub fn set_plan_model(&mut self, model: ResolvedModel)
        ensures
            final(self)@ == (RegistryView {
                plan_model: Some(model),
                ..old(self)@.with_model(model)
            }),
    {
        self.register_model(model.clone());
        self.plan_model = Some(model);
    }

    /// The model for planning, or else the default model.
    pub fn plan_model(&self) -> (found: Result<ResolvedModel, CodecError>)
        ensures
            is_found(
                found,
                or_default(self@.plan_model, self@.default_model),
                "failed to resolve model: plan model is not configured"@,
            ),
    {
        find(
            &self.plan_model,
            &self.default_model,
            "failed to resolve model: plan model is not configured",
        )
    }

    /// The model with an identifier.
    pub fn model(&self, model_id: &str) -> (found: Result<ResolvedModel, CodecError>)
        ensures
            is_found(
                found,
                if self@.models.dom().contains(model_id@) {
                    Some(self@.models[model_id@])
                } else {
                    None
                },
                "failed to resolve model: unknown model '"@ + model_id@ + "'"@,
            ),
    {
        match self.models.get(model_id) {
            Some(model) => Ok(model.clone()),
            None => Err(
                CodecError {
                    message: concat3("failed to resolve model: unknown model '", model_id, "'"),
                },
            ),
        }
    }

    /// The identifiers of all models, in ascending order.
    pub fn model_ids(&self) -> (ids: Vec<String>)
        ensures
            is_ascending(views(ids@)),
            forall|id: Seq<char>|
                #![trigger views(ids@).contains(id)]
                self@.models.dom().contains(id) <==> views(ids@).contains(id),
    {
        self.models.sorted_keys()
    }

    /// Registers a provider under its name.
    pub fn register_provider(&mut self, name: &str, provider: P)
        ensures
            final(self)@ == (RegistryView {
                providers: old(self)@.providers.insert(name@, provider),
                ..old(self)@
            }),
    {
        self.providers.insert(name, provider);
    }

    /// The provider with a name.
    pub fn provider(&self, name: &str) -> (found: Result<&P, CodecError>)
        ensures
            match found {
                Ok(provider) => self@.providers.dom().contains(name@) && *provider
                    == self@.providers[name@],
                Err(error) => !self@.providers.dom().contains(name@) && error@
                    == "failed to resolve provider: unknown provider '"@ + name@ + "'"@,
            },
    {
        match self.providers.get(name) {
            Some(provider) => Ok(provider),
            None => Err(
                CodecError {
                    message: concat3("failed to resolve provider: unknown provider '", name, "'"),
                },
            ),
        }
    }

    /// Registers the panel that judges whole turns of a model.
    pub fn register_full_turn_judge(&mut self, model_id: &str, plan: J)
        ensures
            final(self)@ == (RegistryView {
                full_turn_judges: old(self)@.full_turn_judges.insert(model_id@, plan),
                ..old(self)@
            }),
    {
        self.full_turn_judges.insert(model_id, plan);
    }

    /// The panel that judges whole turns of a model, if there is one.
    pub fn full_turn_judge(&self, model_id: &str) -> (plan: Option<&J>)
        ensures
            match plan {
                Some(plan) => self@.full_turn_judges.dom().contains(model_id@) && *plan
                    == self@.full_turn_judges[model_id@],
                None => !self@.full_turn_judges.dom().contains(model_id@),
            },
    {
        self.full_turn_judges.get(model_id)
    }
}

impl<P, J> Default for ModelRegistry<P, J> {
    fn default() -> (registry: ModelRegistry<P, J>)
        ensures
            registry@ == RegistryView::<P, J>::nothing(),
    {
        ModelRegistry::new()
    }
}

/// A model that was given a role can be asked for by its identifier, and the
/// models registered before under other identifiers still can.
pub proof fn law_role_models_are_resolvable<P, J>(
    registry: RegistryView<P, J>,
    model: ResolvedModel,
    other: Seq<char>,
)
    requires
        other != model.id@,
    ensures
        registry.with_model(model).models.dom().contains(model.id@),
        registry.with_model(model).models[model.id@] == model,
        registry.models.dom().contains(other) == registry.with_model(model).models.dom().contains(
            other,
        ),
        registry.models.dom().contains(other) ==> registry.with_model(model).models[other]
            == registry.models[other],
{
}

/// A role without a model of its own is played by the default model.
pub proof fn law_default_model_steps_in(
    model: Option<ResolvedModel>,
    default_model: Option<ResolvedModel>,
    found: Result<ResolvedModel, CodecError>,
    missing: Seq<char>,
)
    requires
        is_found(found, or_default(model, default_model), missing),
    ensures
        model is Some ==> found == Ok::<ResolvedModel, CodecError>(model->0),
        model is None && default_model is Some ==> found == Ok::<ResolvedModel, CodecError>(
            default_model->0,
        ),
        model is None && default_model is None ==> (found matches Err(error) && error@ == missing),
{
}

/// A new registry knows no model, no provider and no judge.
pub proof fn law_new_registry_is_empty<P, J>(name: Seq<char>)
    ensures
        ({
            let registry = RegistryView::<P, J>::nothing();
            &&& !registry.models.dom().contains(name)
            &&& !registry.providers.dom().contains(name)
            &&& !registry.full_turn_judges.dom().contains(name)
            &&& registry.default_model is None && registry.small_model is None
            &&& registry.subagent_model is None && registry.plan_model is None
        }),
{
}

} // verus!
