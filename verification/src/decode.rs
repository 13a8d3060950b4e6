//! Decoding of a JSON value into the analysis result.
//!
//! Every field is read defensively. A field that is missing or has another
//! shape than expected takes its default; an element of an array that lacks
//! what it must have is left out, and the elements around it stay.

use vstd::prelude::*;
use crate::json::{
    distinct_keys, lemma_member_index, member_index, view_of, views, well_keyed, Float64, Json,
};
use crate::schema::{
    copy_text, Attribute, AttributeView, Contrast, ContrastView, DomElement, DomElementView,
    Interaction, InteractionView, Layout, LayoutView, Meta, MetaView, Rect, Region, RegionView,
    TextBlock, TextBlockView, UIElement, UIElementView, Visual, VisualView, VisionRequest,
    VisionResponse, VisionResponseView,
};

verus! {

/// Name of the inference backend, as reported with every result.
pub open spec fn backend_name() -> Seq<char> {
    "llama.cpp"@
}

/// What `f` makes of the elements of `items`, in order, without the elements
/// of which it makes nothing.
pub open spec fn collect_some<A, B>(items: Seq<A>, f: spec_fn(A) -> Option<B>) -> Seq<B>
    decreases items.len(),
{
    if items.len() == 0 {
        Seq::empty()
    } else {
        let front = collect_some(items.drop_last(), f);
        match f(items.last()) {
            Some(b) => front.push(b),
            None => front,
        }
    }
}

/// What `collect_some` makes of the first `i + 1` elements, from what it
/// makes of the first `i`.
pub proof fn lemma_collect_some_step<A, B>(items: Seq<A>, f: spec_fn(A) -> Option<B>, i: int)
    requires
        0 <= i < items.len(),
    ensures
        collect_some(items.take(i + 1), f) == match f(items[i]) {
            Some(b) => collect_some(items.take(i), f).push(b),
            None => collect_some(items.take(i), f),
        },
{
    assert(items.take(i + 1).drop_last() =~= items.take(i));
}

/// No element is invented: the result is never longer than the input.
pub proof fn lemma_collect_some_len<A, B>(items: Seq<A>, f: spec_fn(A) -> Option<B>)
    ensures
        collect_some(items, f).len() <= items.len(),
    decreases items.len(),
{
    if items.len() > 0 {
        lemma_collect_some_len(items.drop_last(), f);
    }
}

/// Where `f` makes something of every element, none is dropped and the
/// order is kept.
pub proof fn lemma_collect_some_total<A, B>(items: Seq<A>, f: spec_fn(A) -> Option<B>)
    requires
        forall|i: int| 0 <= i < items.len() ==> (#[trigger] f(items[i])) is Some,
    ensures
        collect_some(items, f).len() == items.len(),
        forall|i: int|
            0 <= i < items.len() ==> Some(#[trigger] collect_some(items, f)[i]) == f(items[i]),
    decreases items.len(),
{
    if items.len() > 0 {
        let front = items.drop_last();
        assert forall|i: int| 0 <= i < front.len() implies (#[trigger] f(front[i])) is Some by {
            assert(front[i] == items[i]);
        }
        lemma_collect_some_total(front, f);
        assert forall|i: int| 0 <= i < items.len() implies Some(
            #[trigger] collect_some(items, f)[i],
        ) == f(items[i]) by {
            if i < front.len() {
                assert(front[i] == items[i]);
            }
        }
    }
}

/// The value under `key`, or `null` where there is none.
pub open spec fn at(v: Json, key: Seq<char>) -> Json {
    match v.field(key) {
        Some(x) => x,
        None => Json::Null,
    }
}

/// The confidence of a text block: the number under `confidence`, where it
/// lies between 0 and 1. A confidence out of this range is no confidence.
pub open spec fn confidence_of(item: Json) -> Option<Float64> {
    match item.double_field("confidence"@) {
        Some(f) => if f.in_unit_range() {
            Some(f)
        } else {
            None
        },
        None => None,
    }
}

/// A text block needs its `text`; its confidence is kept where it is one.
pub open spec fn text_block_of(item: Json) -> Option<TextBlockView> {
    match item.text_field("text"@) {
        Some(text) => Some(TextBlockView { text, confidence: confidence_of(item) }),
        None => None,
    }
}

/// A region needs its `name` and its `description`.
pub open spec fn region_of(item: Json) -> Option<RegionView> {
    match (item.text_field("name"@), item.text_field("description"@)) {
        (Some(name), Some(description)) => Some(RegionView { name, description }),
        _ => None,
    }
}

/// An interface element needs its `name` and its `element_type`.
pub open spec fn ui_element_of(item: Json) -> Option<UIElementView> {
    match (item.text_field("name"@), item.text_field("element_type"@)) {
        (Some(name), Some(element_type)) => Some(UIElementView { name, element_type }),
        _ => None,
    }
}

/// A rectangle needs all four of `x`, `y`, `width` and `height`, as numbers.
pub open spec fn rect_of(p: Json) -> Option<Rect> {
    match (
        p.double_field("x"@),
        p.double_field("y"@),
        p.double_field("width"@),
        p.double_field("height"@),
    ) {
        (Some(x), Some(y), Some(width), Some(height)) => Some(Rect { x, y, width, height }),
        _ => None,
    }
}

/// An attribute is kept where its value is a string.
pub open spec fn attribute_of(member: (String, Json)) -> Option<AttributeView> {
    match member.1.text() {
        Some(value) => Some(AttributeView { name: member.0@, value }),
        None => None,
    }
}

/// A DOM element needs its `tag` and a complete `position`.
pub open spec fn dom_element_of(item: Json) -> Option<DomElementView> {
    match (item.text_field("tag"@), rect_of(at(item, "position"@))) {
        (Some(tag), Some(position)) => Some(
            DomElementView {
                tag,
                id: item.text_field("id"@),
                class: item.text_field("class"@),
                text: item.text_field("text"@),
                position,
                attributes: match at(item, "attributes"@).members() {
                    Some(members) => collect_some(members, attribute_decoder()),
                    None => Seq::empty(),
                },
            },
        ),
        _ => None,
    }
}

pub open spec fn text_block_decoder() -> spec_fn(Json) -> Option<TextBlockView> {
    |item: Json| text_block_of(item)
}

pub open spec fn region_decoder() -> spec_fn(Json) -> Option<RegionView> {
    |item: Json| region_of(item)
}

pub open spec fn ui_element_decoder() -> spec_fn(Json) -> Option<UIElementView> {
    |item: Json| ui_element_of(item)
}

pub open spec fn text_decoder() -> spec_fn(Json) -> Option<Seq<char>> {
    |item: Json| item.text()
}

pub open spec fn attribute_decoder() -> spec_fn((String, Json)) -> Option<AttributeView> {
    |member: (String, Json)| attribute_of(member)
}

pub open spec fn dom_element_decoder() -> spec_fn(Json) -> Option<DomElementView> {
    |item: Json| dom_element_of(item)
}

/// The strings among the elements of the array under `key`; nothing where
/// there is no array.
pub open spec fn texts_under(v: Json, key: Seq<char>) -> Seq<Seq<char>> {
    match v.array_field(key) {
        Some(items) => collect_some(items, text_decoder()),
        None => Seq::empty(),
    }
}

/// The text blocks of a result.
pub open spec fn text_blocks_of(parsed: Json) -> Seq<TextBlockView> {
    match parsed.array_field("text_blocks"@) {
        Some(items) => collect_some(items, text_block_decoder()),
        None => Seq::empty(),
    }
}

/// The layout of a result, read from the value under `layout`.
pub open spec fn layout_of(parsed: Json) -> LayoutView {
    let layout = at(parsed, "layout"@);
    LayoutView {
        theme: layout.text_field("theme"@),
        regions: match layout.array_field("regions"@) {
            Some(items) => collect_some(items, region_decoder()),
            None => Seq::empty(),
        },
        key_ui_elements: match layout.array_field("key_ui_elements"@) {
            Some(items) => collect_some(items, ui_element_decoder()),
            None => Seq::empty(),
        },
    }
}

/// The contrast assessment read from `c`.
pub open spec fn contrast_of(c: Json) -> ContrastView {
    ContrastView {
        ratio: c.double_field("ratio"@),
        compliant: match c.field("compliant"@) {
            Some(b) => b.boolean(),
            None => None,
        },
        issues: texts_under(c, "issues"@),
    }
}

/// The visual analysis of a result, read from the value under `visual`. A
/// contrast assessment is present where `contrast` is an object.
pub open spec fn visual_of(parsed: Json) -> VisualView {
    let visual = at(parsed, "visual"@);
    VisualView {
        background: visual.text_field("background"@),
        accent_colors: texts_under(visual, "accent_colors"@),
        contrast: if at(visual, "contrast"@).members() is Some {
            Some(contrast_of(at(visual, "contrast"@)))
        } else {
            None
        },
        description: visual.text_field("description"@),
    }
}

/// The interaction hints of a result.
pub open spec fn interaction_of(parsed: Json) -> InteractionView {
    InteractionView { description: at(parsed, "interaction"@).text_field("description"@) }
}

/// The DOM map of a result: present where `dom_map` is an array.
pub open spec fn dom_map_of(parsed: Json) -> Option<Seq<DomElementView>> {
    match parsed.array_field("dom_map"@) {
        Some(items) => Some(collect_some(items, dom_element_decoder())),
        None => None,
    }
}

/// The result that a parsed JSON value stands for. The request's URL and
/// mode are echoed, the model's text is kept, and no warning is raised.
pub open spec fn structured_response(
    parsed: Json,
    url: Option<Seq<char>>,
    mode: Seq<char>,
    model: Seq<char>,
    duration_ms: u64,
    raw: Seq<char>,
) -> VisionResponseView {
    VisionResponseView {
        image_path: None,
        url,
        mode,
        text_blocks: text_blocks_of(parsed),
        layout: layout_of(parsed),
        visual: visual_of(parsed),
        interaction: interaction_of(parsed),
        dom_map: dom_map_of(parsed),
        meta: MetaView { model, backend: backend_name(), duration_ms, parse_warnings: None },
        raw_model_output: Some(raw),
    }
}

fn decode_text_block(item: &Json) -> (r: Option<TextBlock>)
    ensures
        view_of(r) == text_block_of(*item),
{
    match item.get_string("text") {
        Some(text) => {
            let confidence = match item.get_f64("confidence") {
                Some(f) => if f.is_in_unit_range() {
                    Some(f)
                } else {
                    None
                },
                None => None,
            };
            Some(TextBlock { text, confidence })
        },
        None => None,
    }
}

fn decode_region(item: &Json) -> (r: Option<Region>)
    ensures
        view_of(r) == region_of(*item),
{
    match item.get_string("name") {
        Some(name) => match item.get_string("description") {
            Some(description) => Some(Region { name, description }),
            None => None,
        },
        None => None,
    }
}

fn decode_ui_element(item: &Json) -> (r: Option<UIElement>)
    ensures
        view_of(r) == ui_element_of(*item),
{
    match item.get_string("name") {
        Some(name) => match item.get_string("element_type") {
            Some(element_type) => Some(UIElement { name, element_type }),
            None => None,
        },
        None => None,
    }
}

fn decode_rect(p: &Json) -> (r: Option<Rect>)
    ensures
        r == rect_of(*p),
{
    let x = p.get_f64("x");
    let y = p.get_f64("y");
    let width = p.get_f64("width");
    let height = p.get_f64("height");
    match (x, y, width, height) {
        (Some(x), Some(y), Some(width), Some(height)) => Some(Rect { x, y, width, height }),
        _ => None,
    }
}

fn decode_text_blocks(items: &Vec<Json>) -> (out: Vec<TextBlock>)
    ensures
        views(out@) == collect_some(items@, text_block_decoder()),
{
    let mut out: Vec<TextBlock> = Vec::new();
    let mut i: usize = 0;
    while i < items.len()
        invariant
            i <= items.len(),
            views(out@) =~= collect_some(items@.take(i as int), text_block_decoder()),
        decreases items.len() - i,
    {
        proof {
            lemma_collect_some_step(items@, text_block_decoder(), i as int);
        }
        match decode_text_block(&items[i]) {
            Some(b) => {
                out.push(b);
            },
            None => {},
        }
        i += 1;
    }
    assert(items@.take(items.len() as int) =~= items@);
    out
}

fn decode_regions(items: &Vec<Json>) -> (out: Vec<Region>)
    ensures
        views(out@) == collect_some(items@, region_decoder()),
{
    let mut out: Vec<Region> = Vec::new();
    let mut i: usize = 0;
    while i < items.len()
        invariant
            i <= items.len(),
            views(out@) =~= collect_some(items@.take(i as int), region_decoder()),
        decreases items.len() - i,
    {
        proof {
            lemma_collect_some_step(items@, region_decoder(), i as int);
        }
        match decode_region(&items[i]) {
            Some(b) => {
                out.push(b);
            },
            None => {},
        }
        i += 1;
    }
    assert(items@.take(items.len() as int) =~= items@);
    out
}

fn decode_ui_elements(items: &Vec<Json>) -> (out: Vec<UIElement>)
    ensures
        views(out@) == collect_some(items@, ui_element_decoder()),
{
    let mut out: Vec<UIElement> = Vec::new();
    let mut i: usize = 0;
    while i < items.len()
        invariant
            i <= items.len(),
            views(out@) =~= collect_some(items@.take(i as int), ui_element_decoder()),
        decreases items.len() - i,
    {
        proof {
            lemma_collect_some_step(items@, ui_element_decoder(), i as int);
        }
        match decode_ui_element(&items[i]) {
            Some(b) => {
                out.push(b);
            },
            None => {},
        }
        i += 1;
    }
    assert(items@.take(items.len() as int) =~= items@);
    out
}

fn decode_texts(items: &Vec<Json>) -> (out: Vec<String>)
    ensures
        views(out@) == collect_some(items@, text_decoder()),
{
    let mut out: Vec<String> = Vec::new();
    let mut i: usize = 0;
    while i < items.len()
        invariant
            i <= items.len(),
            views(out@) =~= collect_some(items@.take(i as int), text_decoder()),
        decreases items.len() - i,
    {
        proof {
            lemma_collect_some_step(items@, text_decoder(), i as int);
        }
        match items[i].as_str() {
            Some(s) => {
                out.push(String::from_str(s));
            },
            None => {},
        }
        i += 1;
    }
    assert(items@.take(items.len() as int) =~= items@);
    out
}

fn decode_attributes(members: &Vec<(String, Json)>) -> (out: Vec<Attribute>)
    ensures
        views(out@) == collect_some(members@, attribute_decoder()),
{
    let mut out: Vec<Attribute> = Vec::new();
    let mut i: usize = 0;
    while i < members.len()
        invariant
            i <= members.len(),
            views(out@) =~= collect_some(members@.take(i as int), attribute_decoder()),
        decreases members.len() - i,
    {
        proof {
            lemma_collect_some_step(members@, attribute_decoder(), i as int);
        }
        match members[i].1.as_str() {
            Some(s) => {
                out.push(Attribute { name: members[i].0.clone(), value: String::from_str(s) });
            },
            None => {},
        }
        i += 1;
    }
    assert(members@.take(members.len() as int) =~= members@);
    out
}

fn decode_dom_element(item: &Json) -> (r: Option<DomElement>)
    ensures
        view_of(r) == dom_element_of(*item),
{
    let tag = match item.get_string("tag") {
        Some(tag) => tag,
        None => {
            return None;
        },
    };
    let position = match item.get("position") {
        Some(p) => match decode_rect(p) {
            Some(position) => position,
            None => {
                return None;
            },
        },
        None => {
            assert(rect_of(Json::Null) is None);
            return None;
        },
    };
    let attributes = match item.get("attributes") {
        Some(a) => match a.as_object() {
            Some(members) => decode_attributes(members),
            None => Vec::new(),
        },
        None => Vec::new(),
    };
    let element = DomElement {
        tag,
        id: item.get_string("id"),
        class: item.get_string("class"),
        text: item.get_string("text"),
        position,
        attributes,
    };
    assert(element@.attributes =~= dom_element_of(*item)->0.attributes);
    Some(element)
}

fn decode_dom_elements(items: &Vec<Json>) -> (out: Vec<DomElement>)
    ensures
        views(out@) == collect_some(items@, dom_element_decoder()),
{
    let mut out: Vec<DomElement> = Vec::new();
    let mut i: usize = 0;
    while i < items.len()
        invariant
            i <= items.len(),
            views(out@) =~= collect_some(items@.take(i as int), dom_element_decoder()),
        decreases items.len() - i,
    {
        proof {
            lemma_collect_some_step(items@, dom_element_decoder(), i as int);
        }
        match decode_dom_element(&items[i]) {
            Some(b) => {
                out.push(b);
            },
            None => {},
        }
        i += 1;
    }
    assert(items@.take(items.len() as int) =~= items@);
    out
}

fn decode_texts_under(v: &Json, key: &str) -> (out: Vec<String>)
    ensures
        views(out@) == texts_under(*v, key@),
{
    match v.get_array(key) {
        Some(items) => decode_texts(items),
        None => {
            let out: Vec<String> = Vec::new();
            assert(views(out@) =~= Seq::<Seq<char>>::empty());
            out
        },
    }
}

fn decode_layout(parsed: &Json) -> (r: Layout)
    ensures
        r@ == layout_of(*parsed),
{
    let null = Json::Null;
    let layout = match parsed.get("layout") {
        Some(v) => v,
        None => &null,
    };
    let r = Layout {
        theme: layout.get_string("theme"),
        regions: match layout.get_array("regions") {
            Some(items) => decode_regions(items),
            None => Vec::new(),
        },
        key_ui_elements: match layout.get_array("key_ui_elements") {
            Some(items) => decode_ui_elements(items),
            None => Vec::new(),
        },
    };
    assert(r@.regions =~= layout_of(*parsed).regions);
    assert(r@.key_ui_elements =~= layout_of(*parsed).key_ui_elements);
    r
}

fn decode_contrast(c: &Json) -> (r: Contrast)
    ensures
        r@ == contrast_of(*c),
{
    Contrast {
        ratio: c.get_f64("ratio"),
        compliant: match c.get("compliant") {
            Some(b) => b.as_bool(),
            None => None,
        },
        issues: decode_texts_under(c, "issues"),
    }
}

fn decode_visual(parsed: &Json) -> (r: Visual)
    ensures
        r@ == visual_of(*parsed),
{
    let null = Json::Null;
    let visual = match parsed.get("visual") {
        Some(v) => v,
        None => &null,
    };
    Visual {
        background: visual.get_string("background"),
        accent_colors: decode_texts_under(visual, "accent_colors"),
        contrast: match visual.get("contrast") {
            Some(c) => if c.as_object().is_some() {
                Some(decode_contrast(c))
            } else {
                None
            },
            None => None,
        },
        description: visual.get_string("description"),
    }
}

fn decode_interaction(parsed: &Json) -> (r: Interaction)
    ensures
        r@ == interaction_of(*parsed),
{
    let null = Json::Null;
    let interaction = match parsed.get("interaction") {
        Some(v) => v,
        None => &null,
    };
    Interaction { description: interaction.get_string("description") }
}

/// Decodes a parsed JSON value into the analysis result. Decoding cannot
/// fail: what cannot be read is defaulted or left out.
pub fn parse_structured_output(
    parsed: &Json,
    req: &VisionRequest,
    model_name: &str,
    duration_ms: u64,
    raw_output: &str,
) -> (r: VisionResponse)
    ensures
        r@ == structured_response(
            *parsed,
            view_of(req.url),
            req.mode@,
            model_name@,
            duration_ms,
            raw_output@,
        ),
{
    let text_blocks = match parsed.get_array("text_blocks") {
        Some(items) => decode_text_blocks(items),
        None => Vec::new(),
    };
    let dom_map = match parsed.get_array("dom_map") {
        Some(items) => Some(decode_dom_elements(items)),
        None => None,
    };
    let r = VisionResponse {
        image_path: None,
        url: copy_text(&req.url),
        mode: req.mode.clone(),
        text_blocks,
        layout: decode_layout(parsed),
        visual: decode_visual(parsed),
        interaction: decode_interaction(parsed),
        dom_map,
        meta: Meta {
            model: String::from_str(model_name),
            backend: String::from_str("llama.cpp"),
            duration_ms,
            parse_warnings: None,
        },
        raw_model_output: Some(String::from_str(raw_output)),
    };
    assert(r@.text_blocks =~= text_blocks_of(*parsed));
    r
}

/// A value whose text blocks all have their text is decoded without loss:
/// the result holds as many blocks as the value, in the same order, each
/// with the text that the value gives it and with its confidence.
pub proof fn lemma_well_formed_blocks_are_kept(parsed: Json, items: Seq<Json>)
    requires
        parsed.array_field("text_blocks"@) == Some(items),
        forall|i: int| 0 <= i < items.len() ==> (#[trigger] items[i]).text_field("text"@) is Some,
    ensures
        text_blocks_of(parsed).len() == items.len(),
        forall|i: int|
            0 <= i < items.len() ==> {
                &&& Some((#[trigger] text_blocks_of(parsed)[i]).text) == items[i].text_field(
                    "text"@,
                )
                &&& text_blocks_of(parsed)[i].confidence == confidence_of(items[i])
            },
{
    let f = text_block_decoder();
    assert forall|i: int| 0 <= i < items.len() implies (#[trigger] f(items[i])) is Some by {
        assert(items[i].text_field("text"@) is Some);
    }
    lemma_collect_some_total(items, f);
    assert forall|i: int| 0 <= i < items.len() implies {
        &&& Some((#[trigger] text_blocks_of(parsed)[i]).text) == items[i].text_field("text"@)
        &&& text_blocks_of(parsed)[i].confidence == confidence_of(items[i])
    } by {
        assert(Some(collect_some(items, f)[i]) == f(items[i]));
    }
}

/// Every confidence in a result lies between 0 and 1.
pub proof fn lemma_confidence_is_in_range(parsed: Json, i: int)
    requires
        0 <= i < text_blocks_of(parsed).len(),
    ensures
        match text_blocks_of(parsed)[i].confidence {
            Some(f) => f.in_unit_range(),
            None => true,
        },
{
    match parsed.array_field("text_blocks"@) {
        Some(items) => {
            lemma_collected_confidence(items, i);
        },
        None => {},
    }
}

proof fn lemma_collected_confidence(items: Seq<Json>, i: int)
    requires
        0 <= i < collect_some(items, text_block_decoder()).len(),
    ensures
        match collect_some(items, text_block_decoder())[i].confidence {
            Some(f) => f.in_unit_range(),
            None => true,
        },
    decreases items.len(),
{
    if items.len() > 0 {
        let front = collect_some(items.drop_last(), text_block_decoder());
        if i < front.len() {
            lemma_collected_confidence(items.drop_last(), i);
        }
    }
}

/// Every attribute that is read has the key of a member as its name.
proof fn lemma_attribute_has_key(members: Seq<(String, Json)>, i: int)
    requires
        0 <= i < collect_some(members, attribute_decoder()).len(),
    ensures
        exists|k: int|
            0 <= k < members.len() && (#[trigger] members[k]).0@ == collect_some(
                members,
                attribute_decoder(),
            )[i].name,
    decreases members.len(),
{
    if members.len() > 0 {
        let front = members.drop_last();
        let read = collect_some(front, attribute_decoder());
        if i < read.len() {
            lemma_attribute_has_key(front, i);
            let k = choose|k: int|
                0 <= k < front.len() && (#[trigger] front[k]).0@ == read[i].name;
            assert(members[k] == front[k]);
        } else {
            assert(members[members.len() - 1] == members.last());
        }
    }
}

/// Whether no name occurs twice among `attributes`.
pub open spec fn distinct_names(attributes: Seq<AttributeView>) -> bool {
    forall|i: int, j: int|
        0 <= i < j < attributes.len() ==> (#[trigger] attributes[i]).name != (
        #[trigger] attributes[j]).name
}

/// An object in which no key occurs twice gives attributes of which no name
/// occurs twice.
pub proof fn lemma_attribute_names_are_distinct(members: Seq<(String, Json)>)
    requires
        distinct_keys(members),
    ensures
        distinct_names(collect_some(members, attribute_decoder())),
    decreases members.len(),
{
    if members.len() > 0 {
        let front = members.drop_last();
        let read = collect_some(front, attribute_decoder());
        let all = collect_some(members, attribute_decoder());
        assert(distinct_keys(front)) by {
            assert forall|i: int, j: int| 0 <= i < j < front.len() implies (#[trigger] front[i]).0@
                != (#[trigger] front[j]).0@ by {
                assert(front[i] == members[i]);
                assert(front[j] == members[j]);
            }
        }
        lemma_attribute_names_are_distinct(front);
        assert forall|i: int, j: int| 0 <= i < j < all.len() implies (#[trigger] all[i]).name != (
        #[trigger] all[j]).name by {
            if j < read.len() {
                assert(all[i] == read[i]);
                assert(all[j] == read[j]);
            } else {
                assert(all[i] == read[i]);
                lemma_attribute_has_key(front, i);
                let k = choose|k: int|
                    0 <= k < front.len() && (#[trigger] front[k]).0@ == read[i].name;
                assert(front[k] == members[k]);
                assert(members[members.len() - 1] == members.last());
                assert(all[j].name == members.last().0@);
            }
        }
    }
}

/// Every DOM element that is read is what one of the elements of the array
/// stands for.
proof fn lemma_dom_element_has_source(items: Seq<Json>, i: int)
    requires
        0 <= i < collect_some(items, dom_element_decoder()).len(),
    ensures
        exists|k: int|
            0 <= k < items.len() && dom_element_of(#[trigger] items[k]) == Some(
                collect_some(items, dom_element_decoder())[i],
            ),
    decreases items.len(),
{
    if items.len() > 0 {
        let front = items.drop_last();
        let read = collect_some(front, dom_element_decoder());
        if i < read.len() {
            lemma_dom_element_has_source(front, i);
            let k = choose|k: int|
                0 <= k < front.len() && dom_element_of(#[trigger] front[k]) == Some(read[i]);
            assert(items[k] == front[k]);
        } else {
            assert(items[items.len() - 1] == items.last());
        }
    }
}

/// What stands under a key of a tree without repeated keys is without
/// repeated keys, one level further down.
proof fn lemma_field_is_well_keyed(tree: Json, key: Seq<char>, depth: nat)
    requires
        well_keyed(tree, depth),
        depth > 0,
    ensures
        well_keyed(at(tree, key), (depth - 1) as nat),
{
    match tree {
        Json::Object(members) => {
            lemma_member_index(members@, key);
            match member_index(members@, key) {
                Some(i) => {
                    assert(well_keyed(members@[i].1, (depth - 1) as nat));
                },
                None => {},
            }
        },
        _ => {},
    }
}

/// In a document in which no object holds a key twice, no DOM element that
/// is read holds an attribute name twice. Every document that `parse_json`
/// reads is such a document.
pub proof fn lemma_dom_attributes_are_distinct(parsed: Json, depth: nat, i: int)
    requires
        well_keyed(parsed, depth),
        depth >= 3,
        dom_map_of(parsed) is Some,
        0 <= i < dom_map_of(parsed)->0.len(),
    ensures
        distinct_names(dom_map_of(parsed)->0[i].attributes),
{
    let items = parsed.array_field("dom_map"@)->0;
    lemma_field_is_well_keyed(parsed, "dom_map"@, depth);
    assert(at(parsed, "dom_map"@).elements() == Some(items));
    lemma_dom_element_has_source(items, i);
    let k = choose|k: int|
        0 <= k < items.len() && dom_element_of(#[trigger] items[k]) == Some(
            collect_some(items, dom_element_decoder())[i],
        );
    let item = items[k];
    assert(well_keyed(item, (depth - 2) as nat));
    lemma_field_is_well_keyed(item, "attributes"@, (depth - 2) as nat);
    match at(item, "attributes"@).members() {
        Some(members) => {
            lemma_attribute_names_are_distinct(members);
        },
        None => {},
    }
}

} // verus!
