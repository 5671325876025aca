//! The default model choice for the conversation feature.
use vstd::prelude::*;
use crate::provider::contract::ModelId;
use crate::provider::discovery::{model_facts, DiscoveredModel, ModelFacts, ProtocolEndpoint};
use crate::provider::go::DEFAULT_MODEL_ID;
use crate::text::text_eq;

verus! {

/// Whether a discovered model can be the default: the default id exactly,
/// with the chat endpoint or none stated.
pub open spec fn is_default_candidate(m: ModelFacts) -> bool {
    m.id == DEFAULT_MODEL_ID@ && (m.endpoint is None || m.endpoint == Some(
        ProtocolEndpoint::ChatCompletions,
    ))
}

/// The first default candidate among `models`, if any.
pub open spec fn first_default(models: Seq<ModelFacts>) -> Option<Seq<char>>
    decreases models.len(),
{
    if models.len() == 0 {
        None
    } else if is_default_candidate(models[0]) {
        Some(models[0].id)
    } else {
        first_default(models.drop_first())
    }
}

proof fn lemma_first_default(models: Seq<ModelFacts>, i: int)
    requires
        0 <= i <= models.len(),
        forall|k: int| 0 <= k < i ==> !is_default_candidate(#[trigger] models[k]),
    ensures
        i == models.len() ==> first_default(models) is None,
        i < models.len() && is_default_candidate(models[i]) ==> first_default(models) == Some(
            models[i].id,
        ),
    decreases i,
{
    if i > 0 {
        let t = models.drop_first();
        assert forall|k: int| 0 <= k < i - 1 implies !is_default_candidate(#[trigger] t[k]) by {
            assert(t[k] == models[k + 1]);
        }
        if i < models.len() {
            assert(t[i - 1] == models[i]);
        }
        lemma_first_default(t, i - 1);
        assert(!is_default_candidate(models[0]));
    }
}

/// The default model among the discovered ones.
pub fn select_default_model(models: &[DiscoveredModel]) -> (r: Option<ModelId>)
    ensures
        match first_default(models@.map_values(|m: DiscoveredModel| model_facts(m))) {
            Some(id) => r matches Some(x) && x@ == id,
            None => r is None,
        },
{
    let ghost facts = models@.map_values(|m: DiscoveredModel| model_facts(m));
    let mut i: usize = 0;
    while i < models.len()
        invariant
            i <= models@.len(),
            facts == models@.map_values(|m: DiscoveredModel| model_facts(m)),
            forall|k: int| 0 <= k < i ==> !is_default_candidate(#[trigger] facts[k]),
        decreases models@.len() - i,
    {
        let m = &models[i];
        assert(facts[i as int] == model_facts(models@[i as int]));
        let chat = match m.endpoint {
            None => true,
            Some(ProtocolEndpoint::ChatCompletions) => true,
            Some(_) => false,
        };
        if text_eq(m.id.as_str(), DEFAULT_MODEL_ID) && chat {
            proof {
                lemma_first_default(facts, i as int);
            }
            return Some(m.id.clone());
        }
        i = i + 1;
    }
    proof {
        lemma_first_default(facts, i as int);
    }
    None
}

} // verus!
