//! Recovery of a structured result from the free text of a model.
//!
//! Three readings are tried in order and the first that succeeds is taken:
//! the whole text as JSON; the part from the first `{` through the last `}`
//! as JSON; the text as plain prose. The last cannot fail, so a result is
//! always produced.

use vstd::prelude::*;
use crate::decode::{
    backend_name, distinct_names, dom_map_of, lemma_dom_attributes_are_distinct,
    parse_structured_output, structured_response,
};
use crate::json::{view_of, Float64, Json};
use crate::json_text::{is_reading_of, parse_json, DEPTH_LIMIT};
use crate::schema::{
    copy_text, Interaction, InteractionView, Layout, LayoutView, Meta, MetaView, TextBlock,
    TextBlockView, Visual, VisualView, VisionRequest, VisionResponse, VisionResponseView,
};
use crate::text::{
    chars_of, find_first, find_last, first_index_of, last_index_of, trim, trimmed,
};

verus! {

/// Bit pattern of the double 0.5, the confidence given to text that was
/// not understood.
pub const FALLBACK_CONFIDENCE_BITS: u64 = 0x3FE0_0000_0000_0000;

/// Description given to a result that holds only the model's prose.
pub open spec fn fallback_description() -> Seq<char> {
    "Analysis completed"@
}

/// Warning attached to a result that holds only the model's prose.
pub open spec fn fallback_warning() -> Seq<char> {
    "Could not parse structured output"@
}

/// Where in `raw` an embedded JSON object may lie: from the first `{` up to
/// and including the last `}`, as a half-open range of character positions.
/// There is none unless a `}` follows the first `{`.
pub open spec fn json_span(raw: Seq<char>) -> Option<(int, int)> {
    match (first_index_of(raw, '{'), last_index_of(raw, '}')) {
        (Some(start), Some(end)) => if start < end {
            Some((start, end + 1))
        } else {
            None
        },
        _ => None,
    }
}

/// The part of `raw` that `json_span` delimits.
pub open spec fn embedded_json(raw: Seq<char>) -> Option<Seq<char>> {
    match json_span(raw) {
        Some((start, end)) => Some(raw.subrange(start, end)),
        None => None,
    }
}

/// The result for text in which no JSON was found: the trimmed text as the
/// only text block, with confidence one half, and a warning.
pub open spec fn fallback_response(
    url: Option<Seq<char>>,
    mode: Seq<char>,
    model: Seq<char>,
    duration_ms: u64,
    raw: Seq<char>,
) -> VisionResponseView {
    VisionResponseView {
        image_path: None,
        url,
        mode,
        text_blocks: seq![
            TextBlockView {
                text: trimmed(raw),
                confidence: Some(Float64 { bits: FALLBACK_CONFIDENCE_BITS }),
            },
        ],
        layout: LayoutView { theme: None, regions: Seq::empty(), key_ui_elements: Seq::empty() },
        visual: VisualView {
            background: None,
            accent_colors: Seq::empty(),
            contrast: None,
            description: Some(fallback_description()),
        },
        interaction: InteractionView { description: None },
        dom_map: None,
        meta: MetaView {
            model,
            backend: backend_name(),
            duration_ms,
            parse_warnings: Some(seq![fallback_warning()]),
        },
        raw_model_output: Some(raw),
    }
}

/// The result, given what the first two readings yielded: `whole` where the
/// whole text parsed, else `embedded` where the embedded part parsed, else
/// the fallback.
pub open spec fn tiered_response(
    whole: Option<Json>,
    embedded: Option<Json>,
    url: Option<Seq<char>>,
    mode: Seq<char>,
    model: Seq<char>,
    duration_ms: u64,
    raw: Seq<char>,
) -> VisionResponseView {
    match whole {
        Some(parsed) => structured_response(parsed, url, mode, model, duration_ms, raw),
        None => match embedded {
            Some(parsed) => structured_response(parsed, url, mode, model, duration_ms, raw),
            None => fallback_response(url, mode, model, duration_ms, raw),
        },
    }
}

/// Whether `response` is a reading of the model's text `raw`: it is what the
/// three readings come to, where the first is the reading of the whole text
/// as JSON and the second, made only where the first yields nothing, is the
/// reading of the embedded part, if there is one.
pub open spec fn reads_output(
    response: VisionResponseView,
    raw: Seq<char>,
    url: Option<Seq<char>>,
    mode: Seq<char>,
    model: Seq<char>,
    duration_ms: u64,
) -> bool {
    exists|whole: Option<Json>, embedded: Option<Json>|
        {
            &&& response == #[trigger] tiered_response(
                whole,
                embedded,
                url,
                mode,
                model,
                duration_ms,
                raw,
            )
            &&& is_reading_of(whole, raw, DEPTH_LIMIT as nat)
            &&& match (whole, embedded_json(raw)) {
                (None, Some(part)) => is_reading_of(embedded, part, DEPTH_LIMIT as nat),
                _ => embedded is None,
            }
        }
}

/// The text from the first `{` through the last `}` of `raw`.
pub fn extract_embedded_json(raw: &str) -> (r: Option<String>)
    ensures
        view_of(r) == embedded_json(raw@),
{
    let chars = chars_of(raw);
    match find_first(&chars, '{') {
        Some(start) => match find_last(&chars, '}') {
            Some(end) => {
                if start < end {
                    Some(String::from_str(raw.substring_char(start, end + 1)))
                } else {
                    None
                }
            },
            None => None,
        },
        None => None,
    }
}

/// The result for text in which no JSON was found.
pub fn fallback_output(raw_output: &str, req: &VisionRequest, model_name: &str, duration_ms: u64)
    -> (r: VisionResponse)
    ensures
        r@ == fallback_response(view_of(req.url), req.mode@, model_name@, duration_ms, raw_output@),
{
    let mut text_blocks: Vec<TextBlock> = Vec::new();
    text_blocks.push(
        TextBlock {
            text: trim(raw_output),
            confidence: Some(Float64 { bits: FALLBACK_CONFIDENCE_BITS }),
        },
    );
    let mut warnings: Vec<String> = Vec::new();
    warnings.push(String::from_str("Could not parse structured output"));
    let r = VisionResponse {
        image_path: None,
        url: copy_text(&req.url),
        mode: req.mode.clone(),
        text_blocks,
        layout: Layout { theme: None, regions: Vec::new(), key_ui_elements: Vec::new() },
        visual: Visual {
            background: None,
            accent_colors: Vec::new(),
            contrast: None,
            description: Some(String::from_str("Analysis completed")),
        },
        interaction: Interaction { description: None },
        dom_map: None,
        meta: Meta {
            model: String::from_str(model_name),
            backend: String::from_str("llama.cpp"),
            duration_ms,
            parse_warnings: Some(warnings),
        },
        raw_model_output: Some(String::from_str(raw_output)),
    };
    proof {
        let f = fallback_response(
            view_of(req.url),
            req.mode@,
            model_name@,
            duration_ms,
            raw_output@,
        );
        assert(r@.text_blocks =~= f.text_blocks);
        assert(r@.layout.regions =~= f.layout.regions);
        assert(r@.layout.key_ui_elements =~= f.layout.key_ui_elements);
        assert(r@.visual.accent_colors =~= f.visual.accent_colors);
        assert(r@.meta.parse_warnings->0 =~= f.meta.parse_warnings->0);
    }
    r
}

/// The result, given what the first two readings of `raw_output` yielded.
pub fn respond_from_readings(
    whole: Option<Json>,
    embedded: Option<Json>,
    raw_output: &str,
    req: &VisionRequest,
    model_name: &str,
    duration_ms: u64,
) -> (r: VisionResponse)
    ensures
        r@ == tiered_response(
            whole,
            embedded,
            view_of(req.url),
            req.mode@,
            model_name@,
            duration_ms,
            raw_output@,
        ),
{
    match whole {
        Some(parsed) => parse_structured_output(&parsed, req, model_name, duration_ms, raw_output),
        None => match embedded {
            Some(parsed) => parse_structured_output(
                &parsed,
                req,
                model_name,
                duration_ms,
                raw_output,
            ),
            None => fallback_output(raw_output, req, model_name, duration_ms),
        },
    }
}

/// Whether no DOM element of `response` holds an attribute name twice.
pub open spec fn attributes_are_distinct(response: VisionResponseView) -> bool {
    match response.dom_map {
        Some(elements) => forall|i: int|
            0 <= i < elements.len() ==> distinct_names((#[trigger] elements[i]).attributes),
        None => true,
    }
}

/// Turns the text of a model into a result. The embedded part is read only
/// where the whole text is not JSON, and only where there is such a part.
/// No element of the result holds an attribute name twice.
pub fn parse_vision_output(
    raw_output: &str,
    req: &VisionRequest,
    model_name: &str,
    duration_ms: u64,
) -> (r: VisionResponse)
    ensures
        reads_output(
            r@,
            raw_output@,
            view_of(req.url),
            req.mode@,
            model_name@,
            duration_ms,
        ),
        r@.image_path is None,
        r@.url == view_of(req.url),
        r@.mode == req.mode@,
        r@.meta.model == model_name@,
        r@.meta.backend == backend_name(),
        r@.meta.duration_ms == duration_ms,
        r@.raw_model_output == Some(raw_output@),
        attributes_are_distinct(r@),
{
    let whole = parse_json(raw_output);
    let embedded = match whole {
        Some(_) => None,
        None => match extract_embedded_json(raw_output) {
            Some(part) => parse_json(part.as_str()),
            None => None,
        },
    };
    proof {
        let read = if whole is Some {
            whole
        } else {
            embedded
        };
        if let Some(parsed) = read {
            assert forall|i: int| 0 <= i < dom_map_of(parsed)->0.len() && dom_map_of(
                parsed,
            ) is Some implies distinct_names((#[trigger] dom_map_of(parsed)->0[i]).attributes) by {
                lemma_dom_attributes_are_distinct(parsed, DEPTH_LIMIT as nat, i);
            }
        }
    }
    respond_from_readings(whole, embedded, raw_output, req, model_name, duration_ms)
}

/// Text that is JSON as a whole is read as that JSON and nothing else: the
/// result is the decoding of the value, it carries no warning, and it keeps
/// the text. What the embedded part would have yielded does not matter.
pub proof fn lemma_json_is_read_without_warnings(
    whole: Json,
    embedded: Option<Json>,
    url: Option<Seq<char>>,
    mode: Seq<char>,
    model: Seq<char>,
    duration_ms: u64,
    raw: Seq<char>,
)
    ensures
        tiered_response(Some(whole), embedded, url, mode, model, duration_ms, raw)
            == structured_response(whole, url, mode, model, duration_ms, raw),
        tiered_response(
            Some(whole),
            embedded,
            url,
            mode,
            model,
            duration_ms,
            raw,
        ).meta.parse_warnings is None,
        tiered_response(Some(whole), embedded, url, mode, model, duration_ms, raw).raw_model_output
            == Some(raw),
{
}

/// Text in which no JSON is found is kept as prose: the result holds one
/// text block, the trimmed text with confidence one half, and a warning.
pub proof fn lemma_prose_is_kept(
    url: Option<Seq<char>>,
    mode: Seq<char>,
    model: Seq<char>,
    duration_ms: u64,
    raw: Seq<char>,
)
    ensures
        ({
            let r = tiered_response(None, None, url, mode, model, duration_ms, raw);
            &&& r.text_blocks.len() == 1
            &&& r.text_blocks[0].text == trimmed(raw)
            &&& r.text_blocks[0].confidence == Some(Float64 { bits: FALLBACK_CONFIDENCE_BITS })
            &&& r.meta.parse_warnings is Some
            &&& r.meta.parse_warnings->0.len() > 0
            &&& r.raw_model_output == Some(raw)
        }),
{
}

} // verus!
