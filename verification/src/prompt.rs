//! The instruction given to the model: a preamble with the image's size, the
//! task of the chosen mode with the JSON shape to answer in, and around both
//! the chat template of the model's family. The image itself is never part
//! of the text.

use vstd::prelude::*;
use crate::text::{
    ascii_lowercase, contains, contains_ignoring_ascii_case, decimal, decimal_string, occurs_at,
    str_eq,
};

verus! {

/// What an analysis is to look for.
#[derive(Clone, Copy, Debug, PartialEq, Eq)]
pub enum AnalysisMode {
    Ocr,
    Layout,
    Brief,
    Web,
    Full,
}

/// How a prompt is wrapped for a family of models.
#[derive(Clone, Copy, Debug, PartialEq, Eq)]
pub enum ChatTemplate {
    /// `<s>[INST] ... [/INST]`
    InstructionTags,
    /// `<|im_start|>user ... <|im_end|>`, then the opening of the answer.
    ChatRoles,
}

/// A row of the table of model families: a model whose name holds `pattern`,
/// whatever the case of its letters, takes `template`.
pub struct FamilyRule {
    pub pattern: &'static str,
    pub template: ChatTemplate,
}

/// The mode that a mode word names; a word that names none means `Full`.
pub open spec fn mode_of(word: Seq<char>) -> AnalysisMode {
    if word == "ocr"@ {
        AnalysisMode::Ocr
    } else if word == "layout"@ {
        AnalysisMode::Layout
    } else if word == "brief"@ {
        AnalysisMode::Brief
    } else if word == "web"@ {
        AnalysisMode::Web
    } else {
        AnalysisMode::Full
    }
}

/// The opening of every prompt.
pub open spec fn preamble(width: u32, height: u32) -> Seq<char> {
    "You are an AI vision assistant. Analyze the provided image (dimensions: "@ + decimal(
        width as nat,
    ) + "x"@ + decimal(height as nat)
        + " pixels) and respond ONLY with a valid JSON object. Do not include any explanatory text before or after the JSON.\n\n"@
}

/// What the model is asked to do in a mode.
pub open spec fn task_request(mode: AnalysisMode) -> Seq<char> {
    match mode {
        AnalysisMode::Ocr => "Extract all visible text from the image. Return JSON: "@,
        AnalysisMode::Layout => "Analyze the layout and structure. Return JSON: "@,
        AnalysisMode::Brief => "Provide a brief visual description. Return JSON: "@,
        AnalysisMode::Web => "Analyze as web page screenshot. Return JSON: "@,
        AnalysisMode::Full => "Perform comprehensive analysis. Return JSON with ALL fields: "@,
    }
}

/// The JSON shape in which the model is asked to answer in a mode.
pub open spec fn shape_hint(mode: AnalysisMode) -> Seq<char> {
    match mode {
        AnalysisMode::Ocr => "{\"text_blocks\": [{\"text\": \"extracted text here\", \"confidence\": 0.95}]}"@,
        AnalysisMode::Layout => "{\"layout\": {\"regions\": [{\"name\": \"region_name\", \"description\": \"description\"}], \"key_ui_elements\": [{\"name\": \"element_name\", \"element_type\": \"type\"}]}}"@,
        AnalysisMode::Brief => "{\"visual\": {\"description\": \"brief description of what you see\"}}"@,
        AnalysisMode::Web => "{\"dom_map\": [{\"tag\": \"div\", \"text\": \"content\"}], \"interaction\": {\"description\": \"interactive elements\"}}"@,
        AnalysisMode::Full => "{\"text_blocks\": [...], \"layout\": {\"regions\": [...], \"key_ui_elements\": [...]}, \"visual\": {\"description\": \"...\"}, \"interaction\": {\"description\": \"...\"}}"@,
    }
}

/// What stands before the prompt in a template.
pub open spec fn template_prefix(template: ChatTemplate) -> Seq<char> {
    match template {
        ChatTemplate::InstructionTags => "<s>[INST] "@,
        ChatTemplate::ChatRoles => "<|im_start|>user\n"@,
    }
}

/// What stands behind the prompt in a template.
pub open spec fn template_suffix(template: ChatTemplate) -> Seq<char> {
    match template {
        ChatTemplate::InstructionTags => " [/INST]"@,
        ChatTemplate::ChatRoles => "<|im_end|>\n<|im_start|>assistant\n"@,
    }
}

/// The table of model families. A name that matches no row takes the
/// chat-role template.
pub open spec fn family_table() -> Seq<(Seq<char>, ChatTemplate)> {
    seq![("llava"@, ChatTemplate::InstructionTags)]
}

/// The template of the first row of `rules` whose pattern occurs in the
/// lowered name; the chat-role template where none does.
pub open spec fn select_template(rules: Seq<(Seq<char>, ChatTemplate)>, lowered: Seq<char>)
    -> ChatTemplate
    decreases rules.len(),
{
    if rules.len() == 0 {
        ChatTemplate::ChatRoles
    } else if contains(lowered, rules[0].0) {
        rules[0].1
    } else {
        select_template(rules.drop_first(), lowered)
    }
}

/// The template for a model, by its name.
pub open spec fn template_of(model_name: Seq<char>) -> ChatTemplate {
    select_template(family_table(), ascii_lowercase(model_name))
}

/// The prompt for an image of `width` by `height` pixels.
pub open spec fn prompt_text(mode: Seq<char>, width: u32, height: u32, model_name: Seq<char>)
    -> Seq<char> {
    let template = template_of(model_name);
    template_prefix(template) + preamble(width, height) + task_request(mode_of(mode))
        + shape_hint(mode_of(mode)) + template_suffix(template)
}

impl AnalysisMode {
    /// The mode that `word` names.
    pub fn parse(word: &str) -> (mode: AnalysisMode)
        ensures
            mode == mode_of(word@),
    {
        if str_eq(word, "ocr") {
            AnalysisMode::Ocr
        } else if str_eq(word, "layout") {
            AnalysisMode::Layout
        } else if str_eq(word, "brief") {
            AnalysisMode::Brief
        } else if str_eq(word, "web") {
            AnalysisMode::Web
        } else {
            AnalysisMode::Full
        }
    }

    /// What the model is asked to do in this mode.
    pub fn request(self) -> (s: &'static str)
        ensures
            s@ == task_request(self),
    {
        match self {
            AnalysisMode::Ocr => "Extract all visible text from the image. Return JSON: ",
            AnalysisMode::Layout => "Analyze the layout and structure. Return JSON: ",
            AnalysisMode::Brief => "Provide a brief visual description. Return JSON: ",
            AnalysisMode::Web => "Analyze as web page screenshot. Return JSON: ",
            AnalysisMode::Full => "Perform comprehensive analysis. Return JSON with ALL fields: ",
        }
    }

    /// The JSON shape in which the model is asked to answer in this mode.
    pub fn shape(self) -> (s: &'static str)
        ensures
            s@ == shape_hint(self),
    {
        match self {
            AnalysisMode::Ocr => "{\"text_blocks\": [{\"text\": \"extracted text here\", \"confidence\": 0.95}]}",
            AnalysisMode::Layout => "{\"layout\": {\"regions\": [{\"name\": \"region_name\", \"description\": \"description\"}], \"key_ui_elements\": [{\"name\": \"element_name\", \"element_type\": \"type\"}]}}",
            AnalysisMode::Brief => "{\"visual\": {\"description\": \"brief description of what you see\"}}",
            AnalysisMode::Web => "{\"dom_map\": [{\"tag\": \"div\", \"text\": \"content\"}], \"interaction\": {\"description\": \"interactive elements\"}}",
            AnalysisMode::Full => "{\"text_blocks\": [...], \"layout\": {\"regions\": [...], \"key_ui_elements\": [...]}, \"visual\": {\"description\": \"...\"}, \"interaction\": {\"description\": \"...\"}}",
        }
    }
}

impl ChatTemplate {
    /// What stands before the prompt.
    pub fn prefix(self) -> (s: &'static str)
        ensures
            s@ == template_prefix(self),
    {
        match self {
            ChatTemplate::InstructionTags => "<s>[INST] ",
            ChatTemplate::ChatRoles => "<|im_start|>user\n",
        }
    }

    /// What stands behind the prompt.
    pub fn suffix(self) -> (s: &'static str)
        ensures
            s@ == template_suffix(self),
    {
        match self {
            ChatTemplate::InstructionTags => " [/INST]",
            ChatTemplate::ChatRoles => "<|im_end|>\n<|im_start|>assistant\n",
        }
    }
}

/// The table of model families.
pub fn family_rules() -> (rules: Vec<FamilyRule>)
    ensures
        rules@.len() == family_table().len(),
        forall|i: int|
            0 <= i < rules@.len() ==> (#[trigger] rules@[i]).pattern@ == family_table()[i].0
                && rules@[i].template == family_table()[i].1,
{
    let mut rules: Vec<FamilyRule> = Vec::new();
    rules.push(FamilyRule { pattern: "llava", template: ChatTemplate::InstructionTags });
    rules
}

/// The template for a model, by its name.
pub fn template_for(model_name: &str) -> (template: ChatTemplate)
    ensures
        template == template_of(model_name@),
{
    let rules = family_rules();
    let ghost lowered = ascii_lowercase(model_name@);
    assert(family_table().skip(0) =~= family_table());
    let mut i: usize = 0;
    while i < rules.len()
        invariant
            i <= rules.len(),
            lowered == ascii_lowercase(model_name@),
            rules@.len() == family_table().len(),
            forall|k: int|
                0 <= k < rules@.len() ==> (#[trigger] rules@[k]).pattern@ == family_table()[k].0
                    && rules@[k].template == family_table()[k].1,
            select_template(family_table(), lowered) == select_template(
                family_table().skip(i as int),
                lowered,
            ),
        decreases rules.len() - i,
    {
        let ghost rest = family_table().skip(i as int);
        assert(rest[0] == family_table()[i as int]);
        assert(rest.drop_first() =~= family_table().skip(i + 1));
        if contains_ignoring_ascii_case(model_name, rules[i].pattern) {
            return rules[i].template;
        }
        i += 1;
    }
    assert(family_table().skip(i as int).len() == 0);
    ChatTemplate::ChatRoles
}

/// Builds the prompt for an image of `width` by `height` pixels.
pub fn prepare_vision_prompt(mode: &str, width: u32, height: u32, model_name: &str) -> (prompt:
    String)
    ensures
        prompt@ == prompt_text(mode@, width, height, model_name@),
{
    let template = template_for(model_name);
    let task = AnalysisMode::parse(mode);
    let mut prompt = String::from_str(template.prefix());
    prompt.append("You are an AI vision assistant. Analyze the provided image (dimensions: ");
    prompt.append(decimal_string(width as u64).as_str());
    prompt.append("x");
    prompt.append(decimal_string(height as u64).as_str());
    prompt.append(
        " pixels) and respond ONLY with a valid JSON object. Do not include any explanatory text before or after the JSON.\n\n",
    );
    prompt.append(task.request());
    prompt.append(task.shape());
    prompt.append(template.suffix());
    assert(prompt@ =~= prompt_text(mode@, width, height, model_name@));
    prompt
}

/// The word that names a mode.
pub open spec fn mode_word(mode: AnalysisMode) -> Seq<char> {
    match mode {
        AnalysisMode::Ocr => "ocr"@,
        AnalysisMode::Layout => "layout"@,
        AnalysisMode::Brief => "brief"@,
        AnalysisMode::Web => "web"@,
        AnalysisMode::Full => "full"@,
    }
}

/// Each mode is named by its word.
pub proof fn lemma_mode_words(mode: AnalysisMode)
    ensures
        mode_of(mode_word(mode)) == mode,
{
    reveal_strlit("ocr");
    reveal_strlit("layout");
    reveal_strlit("brief");
    reveal_strlit("web");
    reveal_strlit("full");
    match mode {
        AnalysisMode::Ocr => {},
        AnalysisMode::Layout => {
            assert("layout"@.len() != "ocr"@.len());
        },
        AnalysisMode::Brief => {
            assert("brief"@.len() != "ocr"@.len());
            assert("brief"@.len() != "layout"@.len());
        },
        AnalysisMode::Web => {
            assert("web"@[0] != "ocr"@[0]);
            assert("web"@.len() != "layout"@.len());
            assert("web"@.len() != "brief"@.len());
        },
        AnalysisMode::Full => {
            assert("full"@.len() != "ocr"@.len());
            assert("full"@.len() != "layout"@.len());
            assert("full"@.len() != "brief"@.len());
            assert("full"@.len() != "web"@.len());
        },
    }
}

/// Whatever the size of the image and the model, the prompt of a mode holds
/// the JSON shape of that mode. This is so in particular of the modes
/// `ocr`, `layout` and `web`.
pub proof fn lemma_prompt_holds_shape_hint(
    mode: Seq<char>,
    width: u32,
    height: u32,
    model_name: Seq<char>,
)
    ensures
        contains(prompt_text(mode, width, height, model_name), shape_hint(mode_of(mode))),
        mode == "ocr"@ ==> contains(
            prompt_text(mode, width, height, model_name),
            shape_hint(AnalysisMode::Ocr),
        ),
        mode == "layout"@ ==> contains(
            prompt_text(mode, width, height, model_name),
            shape_hint(AnalysisMode::Layout),
        ),
        mode == "web"@ ==> contains(
            prompt_text(mode, width, height, model_name),
            shape_hint(AnalysisMode::Web),
        ),
{
    let template = template_of(model_name);
    let front = template_prefix(template) + preamble(width, height) + task_request(mode_of(mode));
    let hint = shape_hint(mode_of(mode));
    let prompt = prompt_text(mode, width, height, model_name);
    assert(prompt =~= front + hint + template_suffix(template));
    assert(prompt.subrange(front.len() as int, (front.len() + hint.len()) as int) =~= hint);
    assert(occurs_at(prompt, hint, front.len() as int));
    lemma_mode_words(AnalysisMode::Ocr);
    lemma_mode_words(AnalysisMode::Layout);
    lemma_mode_words(AnalysisMode::Web);
}

/// A mode word that is none of `ocr`, `layout`, `brief` and `web` gives the
/// prompt of `full`.
pub proof fn lemma_unknown_mode_is_full(
    mode: Seq<char>,
    width: u32,
    height: u32,
    model_name: Seq<char>,
)
    requires
        mode != "ocr"@,
        mode != "layout"@,
        mode != "brief"@,
        mode != "web"@,
    ensures
        prompt_text(mode, width, height, model_name) == prompt_text(
            "full"@,
            width,
            height,
            model_name,
        ),
{
    lemma_mode_words(AnalysisMode::Full);
}

/// Whether an underscore stands at position `k` of `s`, with `a` before it
/// and `b` behind it.
spec fn joint_at(s: Seq<char>, k: int, a: char, b: char) -> bool {
    0 < k && k + 1 < s.len() && s[k - 1] == a && s[k] == '_' && s[k + 1] == b
}

/// Whether no underscore of `s` stands between `a` and `b`.
spec fn joint_free(s: Seq<char>, a: char, b: char) -> bool {
    forall|k: int| !#[trigger] joint_at(s, k, a, b)
}

/// Whether `s` neither begins nor ends with an underscore.
spec fn plain_edges(s: Seq<char>) -> bool {
    s.len() == 0 || (s[0] != '_' && s[s.len() - 1] != '_')
}

/// Whether `s` holds no underscore.
spec fn plain(s: Seq<char>) -> bool {
    forall|k: int| 0 <= k < s.len() ==> #[trigger] s[k] != '_'
}

/// A text without underscores has none between any two characters.
proof fn lemma_plain_is_joint_free(s: Seq<char>, a: char, b: char)
    requires
        plain(s),
    ensures
        joint_free(s, a, b),
        plain_edges(s),
{
}

/// Two texts without underscores make one.
proof fn lemma_plain_concat(x: Seq<char>, y: Seq<char>)
    requires
        plain(x),
        plain(y),
    ensures
        plain(x + y),
{
}

/// Where neither of two texts has an underscore between `a` and `b`, nor at
/// an edge, the two in a row have none either.
proof fn lemma_joint_free_concat(x: Seq<char>, y: Seq<char>, a: char, b: char)
    requires
        joint_free(x, a, b),
        joint_free(y, a, b),
        plain_edges(x),
        plain_edges(y),
    ensures
        joint_free(x + y, a, b),
        plain_edges(x + y),
{
    assert forall|k: int| !#[trigger] joint_at(x + y, k, a, b) by {
        if joint_at(x + y, k, a, b) {
            if k < x.len() {
                assert(x[k] == '_');
                assert(joint_at(x, k, a, b));
            } else {
                let j = k - x.len();
                assert(y[j] == '_');
                assert(joint_at(y, j, a, b));
            }
        }
    }
}

/// A text in which `needle` occurs has every underscore of `needle`, with
/// what stands around it.
proof fn lemma_joint_of_needle(
    hay: Seq<char>,
    needle: Seq<char>,
    at: int,
    a: char,
    b: char,
)
    requires
        contains(hay, needle),
        joint_at(needle, at, a, b),
    ensures
        !joint_free(hay, a, b),
{
    let i = choose|i: int| occurs_at(hay, needle, i);
    let part = hay.subrange(i, i + needle.len());
    assert(part[at - 1] == hay[i + at - 1]);
    assert(part[at] == hay[i + at]);
    assert(part[at + 1] == hay[i + at + 1]);
    assert(joint_at(hay, i + at, a, b));
}

/// A decimal numeral holds no underscore.
proof fn lemma_decimal_is_plain(n: nat)
    ensures
        plain(decimal(n)),
    decreases n,
{
    if n >= 10 {
        lemma_decimal_is_plain(n / 10);
    }
}

/// The opening of a prompt holds no underscore.
proof fn lemma_preamble_is_plain(width: u32, height: u32)
    ensures
        plain(preamble(width, height)),
{
    let head = "You are an AI vision assistant. Analyze the provided image (dimensions: "@;
    let tail =
        " pixels) and respond ONLY with a valid JSON object. Do not include any explanatory text before or after the JSON.\n\n"@;
    reveal_strlit("You are an AI vision assistant. Analyze the provided image (dimensions: ");
    reveal_strlit("x");
    reveal_strlit(
        " pixels) and respond ONLY with a valid JSON object. Do not include any explanatory text before or after the JSON.\n\n",
    );
    lemma_decimal_is_plain(width as nat);
    lemma_decimal_is_plain(height as nat);
    lemma_plain_concat(head, decimal(width as nat));
    lemma_plain_concat(head + decimal(width as nat), "x"@);
    lemma_plain_concat(head + decimal(width as nat) + "x"@, decimal(height as nat));
    lemma_plain_concat(head + decimal(width as nat) + "x"@ + decimal(height as nat), tail);
}

/// What a mode asks for holds no underscore.
proof fn lemma_task_is_plain(mode: AnalysisMode)
    ensures
        plain(task_request(mode)),
{
    reveal_strlit("Extract all visible text from the image. Return JSON: ");
    reveal_strlit("Analyze the layout and structure. Return JSON: ");
    reveal_strlit("Provide a brief visual description. Return JSON: ");
    reveal_strlit("Analyze as web page screenshot. Return JSON: ");
    reveal_strlit("Perform comprehensive analysis. Return JSON with ALL fields: ");
}

/// In a chat template an underscore is followed by `s` or by `e` only.
proof fn lemma_template_joints(template: ChatTemplate, a: char, b: char)
    requires
        b != 's',
        b != 'e',
    ensures
        joint_free(template_prefix(template), a, b),
        joint_free(template_suffix(template), a, b),
        plain_edges(template_prefix(template)),
        plain_edges(template_suffix(template)),
{
    reveal_strlit("<s>[INST] ");
    reveal_strlit("<|im_start|>user\n");
    reveal_strlit(" [/INST]");
    reveal_strlit("<|im_end|>\n<|im_start|>assistant\n");
}

/// No shape hint begins or ends with an underscore.
proof fn lemma_shape_hint_edges(mode: AnalysisMode)
    ensures
        plain_edges(shape_hint(mode)),
{
    reveal_strlit(
        "{\"text_blocks\": [{\"text\": \"extracted text here\", \"confidence\": 0.95}]}",
    );
    reveal_strlit(
        "{\"layout\": {\"regions\": [{\"name\": \"region_name\", \"description\": \"description\"}], \"key_ui_elements\": [{\"name\": \"element_name\", \"element_type\": \"type\"}]}}",
    );
    reveal_strlit("{\"visual\": {\"description\": \"brief description of what you see\"}}");
    reveal_strlit(
        "{\"dom_map\": [{\"tag\": \"div\", \"text\": \"content\"}], \"interaction\": {\"description\": \"interactive elements\"}}",
    );
    reveal_strlit(
        "{\"text_blocks\": [...], \"layout\": {\"regions\": [...], \"key_ui_elements\": [...]}, \"visual\": {\"description\": \"...\"}, \"interaction\": {\"description\": \"...\"}}",
    );
}

/// The underscores of the shape hints of `ocr`, `layout` and `web`: none of
/// `ocr` and none of `web` is followed by `u`, none of `ocr` and none of
/// `layout` by `m`, and none of `layout` and none of `web` by `b`.
proof fn lemma_shape_hint_joints(a: char)
    ensures
        joint_free(shape_hint(AnalysisMode::Ocr), a, 'm'),
        joint_free(shape_hint(AnalysisMode::Ocr), a, 'u'),
        joint_free(shape_hint(AnalysisMode::Layout), a, 'b'),
        joint_free(shape_hint(AnalysisMode::Layout), a, 'm'),
        joint_free(shape_hint(AnalysisMode::Web), a, 'b'),
        joint_free(shape_hint(AnalysisMode::Web), a, 'u'),
{
    reveal_strlit(
        "{\"text_blocks\": [{\"text\": \"extracted text here\", \"confidence\": 0.95}]}",
    );
    reveal_strlit(
        "{\"layout\": {\"regions\": [{\"name\": \"region_name\", \"description\": \"description\"}], \"key_ui_elements\": [{\"name\": \"element_name\", \"element_type\": \"type\"}]}}",
    );
    reveal_strlit(
        "{\"dom_map\": [{\"tag\": \"div\", \"text\": \"content\"}], \"interaction\": {\"description\": \"interactive elements\"}}",
    );
}

/// A prompt has an underscore between `a` and `b` only where its shape hint
/// has one, unless `b` is `s` or `e`.
proof fn lemma_prompt_joints(
    mode: Seq<char>,
    width: u32,
    height: u32,
    model_name: Seq<char>,
    a: char,
    b: char,
)
    requires
        b != 's',
        b != 'e',
        joint_free(shape_hint(mode_of(mode)), a, b),
    ensures
        joint_free(prompt_text(mode, width, height, model_name), a, b),
{
    let template = template_of(model_name);
    let task = mode_of(mode);
    lemma_template_joints(template, a, b);
    lemma_preamble_is_plain(width, height);
    lemma_plain_is_joint_free(preamble(width, height), a, b);
    lemma_task_is_plain(task);
    lemma_plain_is_joint_free(task_request(task), a, b);
    lemma_shape_hint_edges(task);
    let first = template_prefix(template) + preamble(width, height);
    lemma_joint_free_concat(template_prefix(template), preamble(width, height), a, b);
    lemma_joint_free_concat(first, task_request(task), a, b);
    lemma_joint_free_concat(first + task_request(task), shape_hint(task), a, b);
    lemma_joint_free_concat(
        first + task_request(task) + shape_hint(task),
        template_suffix(template),
        a,
        b,
    );
}

/// Whatever the size of the image and the model, the prompt of a mode names
/// no field that only another mode asks for: the prompt of `ocr` holds
/// neither `dom_map` nor `key_ui_elements`, that of `layout` neither
/// `text_blocks` nor `dom_map`, and that of `web` neither `text_blocks` nor
/// `key_ui_elements`.
pub proof fn lemma_prompt_holds_no_other_shape(
    mode: Seq<char>,
    width: u32,
    height: u32,
    model_name: Seq<char>,
)
    ensures
        mode == "ocr"@ ==> !contains(prompt_text(mode, width, height, model_name), "dom_map"@)
            && !contains(prompt_text(mode, width, height, model_name), "key_ui_elements"@),
        mode == "layout"@ ==> !contains(
            prompt_text(mode, width, height, model_name),
            "text_blocks"@,
        ) && !contains(prompt_text(mode, width, height, model_name), "dom_map"@),
        mode == "web"@ ==> !contains(prompt_text(mode, width, height, model_name), "text_blocks"@)
            && !contains(prompt_text(mode, width, height, model_name), "key_ui_elements"@),
{
    let prompt = prompt_text(mode, width, height, model_name);
    reveal_strlit("dom_map");
    reveal_strlit("key_ui_elements");
    reveal_strlit("text_blocks");
    assert(joint_at("dom_map"@, 3, 'm', 'm'));
    assert(joint_at("key_ui_elements"@, 3, 'y', 'u'));
    assert(joint_at("text_blocks"@, 4, 't', 'b'));
    lemma_mode_words(AnalysisMode::Ocr);
    lemma_mode_words(AnalysisMode::Layout);
    lemma_mode_words(AnalysisMode::Web);
    lemma_shape_hint_joints('m');
    lemma_shape_hint_joints('y');
    lemma_shape_hint_joints('t');
    if mode == "ocr"@ || mode == "layout"@ {
        lemma_prompt_joints(mode, width, height, model_name, 'm', 'm');
        if contains(prompt, "dom_map"@) {
            lemma_joint_of_needle(prompt, "dom_map"@, 3, 'm', 'm');
        }
    }
    if mode == "ocr"@ || mode == "web"@ {
        lemma_prompt_joints(mode, width, height, model_name, 'y', 'u');
        if contains(prompt, "key_ui_elements"@) {
            lemma_joint_of_needle(prompt, "key_ui_elements"@, 3, 'y', 'u');
        }
    }
    if mode == "layout"@ || mode == "web"@ {
        lemma_prompt_joints(mode, width, height, model_name, 't', 'b');
        if contains(prompt, "text_blocks"@) {
            lemma_joint_of_needle(prompt, "text_blocks"@, 4, 't', 'b');
        }
    }
}

} // verus!
