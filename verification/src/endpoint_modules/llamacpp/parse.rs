use super::input_enum::LlamacppInputFields;
use super::module_data::{LlamacppModuleData, LlamacppModuleDataView};
use super::output_enum::LlamacppOutputFields;
use crate::text::{chars_of, string_of};
use vstd::prelude::*;

verus! {

/// `text` with every NUL character taken out; the other characters keep
/// their order.
pub open spec fn without_nul(text: Seq<char>) -> Seq<char> {
    text.filter(|c: char| c != '\0')
}

/// What parsing a request body for the text-generation endpoint gives: the
/// prompt is the body without its NUL characters, and the output starts
/// empty. Every body parses.
pub open spec fn parsed_llamacpp_request(request_body: Seq<char>) -> Result<
    LlamacppModuleDataView,
    Seq<char>,
> {
    Ok(LlamacppModuleDataView { input: without_nul(request_body), output: Seq::empty() })
}

/// Text-generation module data, or the error message in its place, as plain
/// texts.
pub open spec fn llamacpp_result_view(result: Result<LlamacppModuleData, String>) -> Result<
    LlamacppModuleDataView,
    Seq<char>,
> {
    match result {
        Ok(data) => Ok(data@),
        Err(message) => Err(message@),
    }
}

/// Parses a raw request body into text-generation module data.
pub fn parse_llamacpp_request(request_body: String) -> (parsed: Result<LlamacppModuleData, String>)
    ensures
        llamacpp_result_view(parsed) == parsed_llamacpp_request(request_body@),
{
    let chars = chars_of(request_body.as_str());
    let mut kept: Vec<char> = Vec::new();
    let mut i: usize = 0;
    while i < chars.len()
        invariant
            i <= chars.len(),
            kept@ == without_nul(chars@.take(i as int)),
        decreases chars.len() - i,
    {
        let c = chars[i];
        proof {
            let pred = |c: char| c != '\0';
            chars@.take(i as int).lemma_filter_push(c, pred);
            assert(chars@.take(i as int).push(c) =~= chars@.take(i + 1));
        }
        if c != '\0' {
            kept.push(c);
        }
        i += 1;
    }
    assert(chars@.take(chars.len() as int) =~= chars@);
    let input = LlamacppInputFields::Prompt(string_of(&kept));
    let module_data = LlamacppModuleData {
        input,
        output: LlamacppOutputFields::OutputText(String::new()),
    };
    Ok(module_data)
}

} // verus!
