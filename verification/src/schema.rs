//! The request and the analysis result of the vision pipeline, with the
//! mathematical model of each.
//!
//! The model of a type (its view, `@`) replaces strings by sequences of
//! characters and vectors by sequences of models. Contracts speak of models.

use vstd::prelude::*;
use crate::json::{view_of, views, Float64};

verus! {

/// A run of recognised text.
#[derive(Debug, PartialEq)]
pub struct TextBlock {
    pub text: String,
    /// Confidence of the recognition, between 0 and 1.
    pub confidence: Option<Float64>,
}

pub struct TextBlockView {
    pub text: Seq<char>,
    pub confidence: Option<Float64>,
}

impl View for TextBlock {
    type V = TextBlockView;

    open spec fn view(&self) -> TextBlockView {
        TextBlockView { text: self.text@, confidence: self.confidence }
    }
}

/// A named region of a layout.
#[derive(Debug, PartialEq)]
pub struct Region {
    pub name: String,
    pub description: String,
}

pub struct RegionView {
    pub name: Seq<char>,
    pub description: Seq<char>,
}

impl View for Region {
    type V = RegionView;

    open spec fn view(&self) -> RegionView {
        RegionView { name: self.name@, description: self.description@ }
    }
}

/// A user-interface element of a layout.
#[derive(Debug, PartialEq)]
pub struct UIElement {
    pub name: String,
    pub element_type: String,
}

pub struct UIElementView {
    pub name: Seq<char>,
    pub element_type: Seq<char>,
}

impl View for UIElement {
    type V = UIElementView;

    open spec fn view(&self) -> UIElementView {
        UIElementView { name: self.name@, element_type: self.element_type@ }
    }
}

/// Layout analysis.
#[derive(Debug, PartialEq)]
pub struct Layout {
    pub theme: Option<String>,
    pub regions: Vec<Region>,
    pub key_ui_elements: Vec<UIElement>,
}

pub struct LayoutView {
    pub theme: Option<Seq<char>>,
    pub regions: Seq<RegionView>,
    pub key_ui_elements: Seq<UIElementView>,
}

impl View for Layout {
    type V = LayoutView;

    open spec fn view(&self) -> LayoutView {
        LayoutView {
            theme: view_of(self.theme),
            regions: views(self.regions@),
            key_ui_elements: views(self.key_ui_elements@),
        }
    }
}

/// Contrast assessment.
#[derive(Debug, PartialEq)]
pub struct Contrast {
    pub ratio: Option<Float64>,
    pub compliant: Option<bool>,
    pub issues: Vec<String>,
}

pub struct ContrastView {
    pub ratio: Option<Float64>,
    pub compliant: Option<bool>,
    pub issues: Seq<Seq<char>>,
}

impl View for Contrast {
    type V = ContrastView;

    open spec fn view(&self) -> ContrastView {
        ContrastView { ratio: self.ratio, compliant: self.compliant, issues: views(self.issues@) }
    }
}

/// Visual analysis.
#[derive(Debug, PartialEq)]
pub struct Visual {
    pub background: Option<String>,
    pub accent_colors: Vec<String>,
    pub contrast: Option<Contrast>,
    pub description: Option<String>,
}

pub struct VisualView {
    pub background: Option<Seq<char>>,
    pub accent_colors: Seq<Seq<char>>,
    pub contrast: Option<ContrastView>,
    pub description: Option<Seq<char>>,
}

impl View for Visual {
    type V = VisualView;

    open spec fn view(&self) -> VisualView {
        VisualView {
            background: view_of(self.background),
            accent_colors: views(self.accent_colors@),
            contrast: view_of(self.contrast),
            description: view_of(self.description),
        }
    }
}

/// Interaction hints.
#[derive(Debug, PartialEq)]
pub struct Interaction {
    pub description: Option<String>,
}

pub struct InteractionView {
    pub description: Option<Seq<char>>,
}

impl View for Interaction {
    type V = InteractionView;

    open spec fn view(&self) -> InteractionView {
        InteractionView { description: view_of(self.description) }
    }
}

/// The rectangle that an element occupies.
#[derive(Clone, Copy, Debug, PartialEq)]
pub struct Rect {
    pub x: Float64,
    pub y: Float64,
    pub width: Float64,
    pub height: Float64,
}

/// An attribute of a DOM element: its name and its value.
#[derive(Debug, PartialEq)]
pub struct Attribute {
    pub name: String,
    pub value: String,
}

pub struct AttributeView {
    pub name: Seq<char>,
    pub value: Seq<char>,
}

impl View for Attribute {
    type V = AttributeView;

    open spec fn view(&self) -> AttributeView {
        AttributeView { name: self.name@, value: self.value@ }
    }
}

/// An element of a page, as seen on a screenshot.
#[derive(Debug, PartialEq)]
pub struct DomElement {
    pub tag: String,
    pub id: Option<String>,
    pub class: Option<String>,
    pub text: Option<String>,
    pub position: Rect,
    /// Attribute names with their values, one for each member of the
    /// element's `attributes` whose value is a string, in the order of the
    /// members.
    pub attributes: Vec<Attribute>,
}

pub struct DomElementView {
    pub tag: Seq<char>,
    pub id: Option<Seq<char>>,
    pub class: Option<Seq<char>>,
    pub text: Option<Seq<char>>,
    pub position: Rect,
    pub attributes: Seq<AttributeView>,
}

impl View for DomElement {
    type V = DomElementView;

    open spec fn view(&self) -> DomElementView {
        DomElementView {
            tag: self.tag@,
            id: view_of(self.id),
            class: view_of(self.class),
            text: view_of(self.text),
            position: self.position,
            attributes: views(self.attributes@),
        }
    }
}

/// How a result was produced.
#[derive(Debug, PartialEq)]
pub struct Meta {
    pub model: String,
    pub backend: String,
    pub duration_ms: u64,
    pub parse_warnings: Option<Vec<String>>,
}

pub struct MetaView {
    pub model: Seq<char>,
    pub backend: Seq<char>,
    pub duration_ms: u64,
    pub parse_warnings: Option<Seq<Seq<char>>>,
}

impl View for Meta {
    type V = MetaView;

    open spec fn view(&self) -> MetaView {
        MetaView {
            model: self.model@,
            backend: self.backend@,
            duration_ms: self.duration_ms,
            parse_warnings: match self.parse_warnings {
                Some(w) => Some(views(w@)),
                None => None,
            },
        }
    }
}

/// The result of analysing one image.
#[derive(Debug, PartialEq)]
pub struct VisionResponse {
    pub image_path: Option<String>,
    pub url: Option<String>,
    pub mode: String,
    pub text_blocks: Vec<TextBlock>,
    pub layout: Layout,
    pub visual: Visual,
    pub interaction: Interaction,
    pub dom_map: Option<Vec<DomElement>>,
    pub meta: Meta,
    /// The text that the model gave, kept as it came.
    pub raw_model_output: Option<String>,
}

pub struct VisionResponseView {
    pub image_path: Option<Seq<char>>,
    pub url: Option<Seq<char>>,
    pub mode: Seq<char>,
    pub text_blocks: Seq<TextBlockView>,
    pub layout: LayoutView,
    pub visual: VisualView,
    pub interaction: InteractionView,
    pub dom_map: Option<Seq<DomElementView>>,
    pub meta: MetaView,
    pub raw_model_output: Option<Seq<char>>,
}

impl View for VisionResponse {
    type V = VisionResponseView;

    open spec fn view(&self) -> VisionResponseView {
        VisionResponseView {
            image_path: view_of(self.image_path),
            url: view_of(self.url),
            mode: self.mode@,
            text_blocks: views(self.text_blocks@),
            layout: self.layout@,
            visual: self.visual@,
            interaction: self.interaction@,
            dom_map: match self.dom_map {
                Some(d) => Some(views(d@)),
                None => None,
            },
            meta: self.meta@,
            raw_model_output: view_of(self.raw_model_output),
        }
    }
}

/// A request to analyse one image. The image comes inline, as base64, or is
/// named by a URL; a request with neither is refused when it is processed.
#[derive(Debug, PartialEq)]
pub struct VisionRequest {
    pub image_base64: Option<String>,
    pub url: Option<String>,
    /// `ocr`, `layout`, `brief`, `web` or `full`; any other word is taken as
    /// `full`.
    pub mode: String,
    pub model: Option<String>,
    pub timeout_ms: Option<u64>,
    pub raw: Option<bool>,
    pub license: Option<String>,
}

/// A copy of `o`.
pub fn copy_text(o: &Option<String>) -> (r: Option<String>)
    ensures
        view_of(r) == view_of(*o),
{
    match o {
        Some(s) => Some(s.clone()),
        None => None,
    }
}

} // verus!
