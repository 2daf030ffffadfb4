use vstd::prelude::*;
use crate::assoc::pairs_view;

verus! {

/// The text that a handlebars template gives for an object of string fields, if it renders.
pub uninterp spec fn rendered(template: Seq<char>, data: Seq<(Seq<char>, Seq<char>)>) -> Option<Seq<char>>;

/// Relies on handlebars::Handlebars::render_template on a new registry: the outcome depends on
/// the template and the data alone; `None` stands for its RenderError.
#[verifier::external_body]
pub(crate) fn render_template(template: &str, data: &Vec<(String, String)>) -> (r: Option<String>)
    ensures
        r is Some <==> rendered(template@, pairs_view(data@)) is Some,
        r matches Some(t) ==> rendered(template@, pairs_view(data@)) == Some(t@),
{
    let fields: serde_json::Map<String, serde_json::Value> = data.iter().map(
        |p| (p.0.clone(), serde_json::Value::String(p.1.clone())),
    ).collect();
    handlebars::Handlebars::new().render_template(template, &serde_json::Value::Object(fields)).ok()
}

} // verus!
