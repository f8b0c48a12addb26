//! Local Ollama models: name validation and the status shown to the user.
use vstd::prelude::*;
use crate::chat::opt_string_view;
use crate::domain::string_result_view;
use crate::text::{is_whitespace, is_ws, lemma_trim_idempotent, str_eq, string_of, trim, trim_str};

verus! {

/// A model installed in Ollama.
pub struct OllamaModel {
    pub name: String,
    pub size: i64,
}

/// How Ollama looks from Atlas.
#[derive(Clone, Copy, Debug, PartialEq, Eq, Structural)]
pub enum OllamaStatusKind {
    Unavailable,
    RunningWithModels,
    RunningWithoutModels,
    SelectedModelMissing,
}

/// The status reported to the user.
pub struct OllamaStatus {
    pub status: OllamaStatusKind,
    pub models: Vec<OllamaModel>,
    pub selected_model: Option<String>,
    pub error: Option<String>,
}

pub open spec fn is_bad_model_char(c: char) -> bool {
    is_ws(c) || c == '"' || c == '\\'
}

/// What `validate_ollama_model_name` answers.
pub open spec fn validated_model_name(model: Seq<char>) -> Result<Seq<char>, Seq<char>> {
    let t = trim(model);
    if t.len() == 0 {
        Err("Model name cannot be empty"@)
    } else if exists|i: int| 0 <= i < t.len() && #[trigger] is_bad_model_char(t[i]) {
        Err("Model name contains invalid characters"@)
    } else {
        Ok(t)
    }
}

/// `validate_ollama_model_name`: the trimmed name, refused when blank or when
/// it holds whitespace, a double quote or a backslash.
pub fn validate_ollama_model_name(model: &str) -> (r: Result<String, String>)
    ensures
        string_result_view(r) == validated_model_name(model@),
{
    let t = trim_str(model);
    if t.len() == 0 {
        return Err(String::from_str("Model name cannot be empty"));
    }
    let mut i: usize = 0;
    while i < t.len()
        invariant
            i <= t@.len(),
            t@ == trim(model@),
            forall|j: int| 0 <= j < i ==> !#[trigger] is_bad_model_char(t@[j]),
        decreases t@.len() - i,
    {
        let c = t[i];
        if is_whitespace(c) || c == '"' || c == '\\' {
            assert(is_bad_model_char(trim(model@)[i as int]));
            return Err(String::from_str("Model name contains invalid characters"));
        }
        i = i + 1;
    }
    Ok(string_of(&t))
}

/// What `normalize_selected_model` answers: the trimmed name, or nothing when
/// it is missing or blank.
pub open spec fn normalized_selected(selected: Option<Seq<char>>) -> Option<Seq<char>> {
    match selected {
        Some(s) => if trim(s).len() == 0 {
            None
        } else {
            Some(trim(s))
        },
        None => None,
    }
}

/// `normalize_selected_model`.
pub fn normalize_selected_model(selected_model: Option<String>) -> (r: Option<String>)
    ensures
        opt_string_view(r) == normalized_selected(opt_string_view(selected_model)),
{
    match selected_model {
        Some(s) => {
            let t = trim_str(s.as_str());
            if t.len() == 0 {
                None
            } else {
                Some(string_of(&t))
            }
        },
        None => None,
    }
}

pub open spec fn model_names(models: Seq<OllamaModel>) -> Seq<Seq<char>> {
    models.map_values(|m: OllamaModel| m.name@)
}

/// Which status a listing gives: unavailable on an error, then whether any
/// model is installed, then whether the selected one is among them.
pub open spec fn status_kind(
    names: Seq<Seq<char>>,
    selected: Option<Seq<char>>,
    has_error: bool,
) -> OllamaStatusKind {
    if has_error {
        OllamaStatusKind::Unavailable
    } else if names.len() == 0 {
        OllamaStatusKind::RunningWithoutModels
    } else if selected is Some && !names.contains(selected->0) {
        OllamaStatusKind::SelectedModelMissing
    } else {
        OllamaStatusKind::RunningWithModels
    }
}

fn has_model_named(models: &Vec<OllamaModel>, name: &str) -> (r: bool)
    ensures
        r == model_names(models@).contains(name@),
{
    let mut i: usize = 0;
    while i < models.len()
        invariant
            i <= models@.len(),
            forall|j: int| 0 <= j < i ==> #[trigger] model_names(models@)[j] != name@,
        decreases models@.len() - i,
    {
        if str_eq(models[i].name.as_str(), name) {
            assert(model_names(models@)[i as int] == name@);
            return true;
        }
        i = i + 1;
    }
    proof {
        if model_names(models@).contains(name@) {
            let j = choose|j: int| 0 <= j < model_names(models@).len() && model_names(models@)[j] == name@;
            assert(model_names(models@)[j] != name@);
        }
    }
    false
}

/// `build_ollama_status`: the status of a model listing, keeping the listing,
/// the normalised selected model and the error.
pub fn build_ollama_status(
    models: Vec<OllamaModel>,
    selected_model: Option<String>,
    error: Option<String>,
) -> (r: OllamaStatus)
    ensures
        opt_string_view(r.selected_model) == normalized_selected(opt_string_view(selected_model)),
        r.status == status_kind(
            model_names(models@),
            normalized_selected(opt_string_view(selected_model)),
            error is Some,
        ),
        r.models@ == models@,
        opt_string_view(r.error) == opt_string_view(error),
{
    let selected = normalize_selected_model(selected_model);
    let status = if error.is_some() {
        OllamaStatusKind::Unavailable
    } else if models.len() == 0 {
        OllamaStatusKind::RunningWithoutModels
    } else {
        match &selected {
            Some(name) => {
                if has_model_named(&models, name.as_str()) {
                    OllamaStatusKind::RunningWithModels
                } else {
                    OllamaStatusKind::SelectedModelMissing
                }
            },
            None => OllamaStatusKind::RunningWithModels,
        }
    };
    OllamaStatus { status, models, selected_model: selected, error }
}

/// The Ollama status, given the model listing (the models, or the error
/// the listing failed with) and the model the user selected.
pub fn get_status(
    listing: Result<Vec<OllamaModel>, String>,
    selected_model: Option<String>,
) -> (r: OllamaStatus)
    ensures
        opt_string_view(r.selected_model) == normalized_selected(opt_string_view(selected_model)),
        match listing {
            Ok(models) => r.status == status_kind(
                model_names(models@),
                normalized_selected(opt_string_view(selected_model)),
                false,
            ) && r.models@ == models@ && r.error is None,
            Err(e) => r.status == OllamaStatusKind::Unavailable && r.models@.len() == 0
                && opt_string_view(r.error) == Some(e@),
        },
{
    match listing {
        Ok(models) => build_ollama_status(models, selected_model, None),
        Err(error) => build_ollama_status(Vec::new(), selected_model, Some(error)),
    }
}

/// The name of a status kind as diagnostics show it.
pub open spec fn status_label_text(kind: OllamaStatusKind) -> Seq<char> {
    match kind {
        OllamaStatusKind::Unavailable => "unavailable"@,
        OllamaStatusKind::RunningWithModels => "running_with_models"@,
        OllamaStatusKind::RunningWithoutModels => "running_without_models"@,
        OllamaStatusKind::SelectedModelMissing => "selected_model_missing"@,
    }
}

/// `ollama_status_label`.
pub fn ollama_status_label(kind: OllamaStatusKind) -> (r: &'static str)
    ensures
        r@ == status_label_text(kind),
{
    match kind {
        OllamaStatusKind::Unavailable => "unavailable",
        OllamaStatusKind::RunningWithModels => "running_with_models",
        OllamaStatusKind::RunningWithoutModels => "running_without_models",
        OllamaStatusKind::SelectedModelMissing => "selected_model_missing",
    }
}

/// A name that passed validation passes again, unchanged.
pub proof fn lemma_validated_model_name_idempotent(model: Seq<char>)
    requires
        validated_model_name(model) is Ok,
    ensures
        validated_model_name(validated_model_name(model)->Ok_0) == validated_model_name(model),
{
    lemma_trim_idempotent(model);
}

} // verus!
