//! On-screen text translation by a multimodal chat model, with tool calls only.
//!
//! Each call tells the model which overlays are shown and has it report new
//! foreign text (`add`) and the overlays whose source text is still visible
//! (`keep`). What is not kept is dropped by the caller.

use crate::chat;
use crate::chat::{ChatReply, ChoiceMessage, Post};
use crate::config::CerebrasConfig;
use crate::http;
use crate::json;
use crate::json::JsonTree;
use crate::single;
use crate::text;
use serde_json::Value;
use vstd::prelude::*;
use vstd::string::*;

verus! {

broadcast use vstd::string::group_string_axioms;

/// A live overlay: a stable id, the translated text, and the top-left corner and
/// the width relative to the screen, as bit patterns of single-precision numbers
/// from `0.0` to `1.0`.
#[derive(Debug)]
pub struct Overlay {
    pub id: u64,
    pub x: u32,
    pub y: u32,
    pub w: u32,
    pub text: String,
}

/// What the model reports for one look at the screen.
#[derive(Debug)]
pub struct OverlayUpdate {
    /// New overlays.
    pub add: Vec<NewOverlay>,
    /// The ids of the overlays whose source text is still visible.
    pub keep: Vec<u64>,
}

/// A new overlay, which has no id yet. Positions and sizes are bit patterns.
#[derive(Debug)]
pub struct NewOverlay {
    pub x: u32,
    pub y: u32,
    pub w: u32,
    pub h: u32,
    pub text: String,
}

/// What the model said, before it is cleaned up.
pub struct RawUpdate {
    pub add: Vec<NewOverlay>,
    pub keep: Vec<Value>,
}

/// An overlay as it is described to the model: its corner is written out.
#[derive(Debug)]
pub struct Described {
    pub id: u64,
    pub text: String,
    pub x: String,
    pub y: String,
}

impl Clone for Overlay {
    fn clone(&self) -> (copy: Self)
        ensures
            copy == *self,
    {
        Overlay { id: self.id, x: self.x, y: self.y, w: self.w, text: self.text.clone() }
    }
}

pub const PROMPT_READER: &'static str =
    "You maintain a set of live translation overlays drawn on top of the user's screen. The user reads ";

pub const PROMPT_FIND: &'static str =
    ". On each call you get a fresh screenshot and the list of overlays currently shown. Find on-screen text that is NOT already in ";

pub const PROMPT_TRANSLATE: &'static str = " and translate it into ";

pub const PROMPT_RULES: &'static str =
    ", then call the `update_overlays` tool:\n- `add`: one entry per foreign text run that is visible now but does NOT already have an overlay in the current list. Give x,y (the top-left corner) and w,h (the size) as normalized floats in [0,1] relative to the image, plus the translated `text`.\n- `keep`: the ids of overlays in the current list whose original (untranslated) text is STILL visible on screen, in roughly the same place. Any current overlay you do not list in `keep` will be removed, so if an overlay's source text is gone simply leave its id out. If the whole screen changed, keep none.\nDo NOT re-add text that already has an overlay, and do NOT move existing overlays — leave stable text where it is.\nIgnore operating-system and application chrome: window title bars, the clock, the taskbar/dock, the system tray, battery/Wi-Fi/network/volume indicators, the browser address bar, tabs and toolbar, menu bars, scrollbars, and UI buttons or icons. Translate only document and content text. Do not write any prose.";

pub const NOTHING_SHOWN: &'static str =
    "No overlays are currently shown. Add overlays for any foreign text you see.";

pub const SHOWN_HEADING: &'static str = "Overlays currently shown (id: text @ x,y):\n";

pub const SHOWN_REQUEST: &'static str =
    "Add overlays only for foreign text not already in this list; remove the ids whose text is gone.";

/// What the model is told to do, for a user who reads `language`.
pub open spec fn overlay_prompt(language: Seq<char>) -> Seq<char> {
    PROMPT_READER@ + language + PROMPT_FIND@ + language + PROMPT_TRANSLATE@ + language
        + PROMPT_RULES@
}

/// The line that describes an overlay.
pub open spec fn described_line(overlay: Described) -> Seq<char> {
    "#"@ + text::decimal(overlay.id as nat) + ": "@ + text::quoted(overlay.text@) + " @ "@
        + overlay.x@ + ","@ + overlay.y@ + "\n"@
}

/// The lines that describe the overlays, one after the other.
pub open spec fn described_lines(current: Seq<Described>) -> Seq<char>
    decreases current.len(),
{
    if current.len() == 0 {
        Seq::empty()
    } else {
        described_lines(current.drop_last()) + described_line(current.last())
    }
}

/// The overlays on the screen, as the model is told of them.
pub open spec fn description(current: Seq<Described>) -> Seq<char> {
    if current.len() == 0 {
        NOTHING_SHOWN@
    } else {
        SHOWN_HEADING@ + described_lines(current) + SHOWN_REQUEST@
    }
}

/// The overlays on the screen, as the model is told of them, so that it can tell
/// what is new and what is gone.
pub fn describe(current: &Vec<Described>) -> (described: String)
    ensures
        described@ == description(current@),
{
    if current.len() == 0 {
        return NOTHING_SHOWN.to_owned();
    }
    let mut described: String = SHOWN_HEADING.to_owned();
    let mut at: usize = 0;
    assert(described@ =~= SHOWN_HEADING@ + described_lines(current@.take(0)));
    while at < current.len()
        invariant
            at <= current@.len(),
            described@ == SHOWN_HEADING@ + described_lines(current@.take(at as int)),
        decreases current.len() - at,
    {
        let overlay: &Described = &current[at];
        let line: String = "#".to_owned().concat(&text::decimal_text(overlay.id)).concat(
            ": ",
        ).concat(&text::quote(&overlay.text)).concat(" @ ").concat(&overlay.x).concat(",").concat(
            &overlay.y,
        ).concat("\n");
        described.append(&line);
        assert(current@.take(at + 1).drop_last() =~= current@.take(at as int));
        at = at + 1;
        assert(described@ =~= SHOWN_HEADING@ + described_lines(current@.take(at as int)));
    }
    assert(current@.take(current@.len() as int) =~= current@);
    described.append(SHOWN_REQUEST);
    described
}

/// The schema of a value of some type.
pub open spec fn typed(kind: Seq<char>, described: Seq<char>) -> JsonTree {
    JsonTree::Object(
        map!["type"@ => JsonTree::Text(kind), "description"@ => JsonTree::Text(described)],
    )
}

/// The schema of a new overlay.
pub open spec fn new_overlay_schema() -> JsonTree {
    JsonTree::Object(
        map![
            "type"@ => JsonTree::Text("object"@),
            "properties"@ => JsonTree::Object(
                map![
                    "x"@ => typed("number"@, "Left edge, 0..1 of image width."@),
                    "y"@ => typed("number"@, "Top edge, 0..1 of image height."@),
                    "w"@ => typed("number"@, "Width, 0..1 of image width."@),
                    "h"@ => typed("number"@, "Height, 0..1 of image height."@),
                    "text"@ => typed("string"@, "The translated text."@),
                ],
            ),
            "required"@ => JsonTree::Array(
                seq![JsonTree::Text("x"@), JsonTree::Text("y"@), JsonTree::Text("text"@)],
            ),
        ],
    )
}

/// The schema of a list with items of a schema.
pub open spec fn list_schema(described: Seq<char>, items: JsonTree) -> JsonTree {
    JsonTree::Object(
        map![
            "type"@ => JsonTree::Text("array"@),
            "description"@ => JsonTree::Text(described),
            "items"@ => items,
        ],
    )
}

/// The schema of the arguments of the tool.
pub open spec fn arguments_schema() -> JsonTree {
    JsonTree::Object(
        map![
            "type"@ => JsonTree::Text("object"@),
            "properties"@ => JsonTree::Object(
                map![
                    "add"@ => list_schema(
                        "Foreign text runs that just appeared and have no overlay yet."@,
                        new_overlay_schema(),
                    ),
                    "keep"@ => list_schema(
                        "Ids of currently-shown overlays whose source text is still visible. Any id not listed is removed."@,
                        JsonTree::Object(map!["type"@ => JsonTree::Text("integer"@)]),
                    ),
                ],
            ),
            "required"@ => JsonTree::Array(seq![JsonTree::Text("add"@), JsonTree::Text("keep"@)]),
        ],
    )
}

/// The tool that the model has to call.
pub open spec fn tool_tree() -> JsonTree {
    JsonTree::Object(
        map![
            "type"@ => JsonTree::Text("function"@),
            "function"@ => JsonTree::Object(
                map![
                    "name"@ => JsonTree::Text("update_overlays"@),
                    "description"@ => JsonTree::Text(
                        "Add new translation overlays and confirm which existing ones are still visible."@,
                    ),
                    "parameters"@ => arguments_schema(),
                ],
            ),
        ],
    )
}

fn typed_value(kind: &str, described: &str) -> (value: Value)
    ensures
        json::json_tree(value) == typed(kind@, described@),
{
    let value: Value = json::with(
        json::with(json::empty_object(), "type", json::of_text(kind)),
        "description",
        json::of_text(described),
    );
    assert(json::json_tree(value) =~= typed(kind@, described@));
    value
}

fn names(first: &str, second: &str, third: Option<&str>) -> (value: Value)
    ensures
        json::json_tree(value) == JsonTree::Array(
            match third {
                Some(third) => seq![
                    JsonTree::Text(first@),
                    JsonTree::Text(second@),
                    JsonTree::Text(third@),
                ],
                None => seq![JsonTree::Text(first@), JsonTree::Text(second@)],
            },
        ),
{
    let mut items: Vec<Value> = Vec::new();
    items.push(json::of_text(first));
    items.push(json::of_text(second));
    match third {
        Some(third) => {
            items.push(json::of_text(third));
            assert(items@.map_values(|item: Value| json::json_tree(item)) =~= seq![
                JsonTree::Text(first@),
                JsonTree::Text(second@),
                JsonTree::Text(third@),
            ]);
        },
        None => {
            assert(items@.map_values(|item: Value| json::json_tree(item)) =~= seq![
                JsonTree::Text(first@),
                JsonTree::Text(second@),
            ]);
        },
    }
    json::of_items(items)
}

fn new_overlay_value() -> (value: Value)
    ensures
        json::json_tree(value) == new_overlay_schema(),
{
    let properties: Value = json::with(
        json::with(
            json::with(
                json::with(
                    json::with(
                        json::empty_object(),
                        "x",
                        typed_value("number", "Left edge, 0..1 of image width."),
                    ),
                    "y",
                    typed_value("number", "Top edge, 0..1 of image height."),
                ),
                "w",
                typed_value("number", "Width, 0..1 of image width."),
            ),
            "h",
            typed_value("number", "Height, 0..1 of image height."),
        ),
        "text",
        typed_value("string", "The translated text."),
    );
    json::with(
        json::with(
            json::with(json::empty_object(), "type", json::of_text("object")),
            "properties",
            properties,
        ),
        "required",
        names("x", "y", Some("text")),
    )
}

fn list_value(described: &str, items: Value) -> (value: Value)
    ensures
        json::json_tree(value) == list_schema(described@, json::json_tree(items)),
{
    json::with(
        json::with(
            json::with(json::empty_object(), "type", json::of_text("array")),
            "description",
            json::of_text(described),
        ),
        "items",
        items,
    )
}

fn arguments_value() -> (value: Value)
    ensures
        json::json_tree(value) == arguments_schema(),
{
    let properties: Value = json::with(
        json::with(
            json::empty_object(),
            "add",
            list_value(
                "Foreign text runs that just appeared and have no overlay yet.",
                new_overlay_value(),
            ),
        ),
        "keep",
        list_value(
            "Ids of currently-shown overlays whose source text is still visible. Any id not listed is removed.",
            json::with(json::empty_object(), "type", json::of_text("integer")),
        ),
    );
    json::with(
        json::with(
            json::with(json::empty_object(), "type", json::of_text("object")),
            "properties",
            properties,
        ),
        "required",
        names("add", "keep", None),
    )
}

/// The tool that the model has to call: its name, and the schema of its arguments.
pub fn tool_schema() -> (schema: Value)
    ensures
        json::json_tree(schema) == tool_tree(),
{
    let function: Value = json::with(
        json::with(
            json::with(json::empty_object(), "name", json::of_text("update_overlays")),
            "description",
            json::of_text(
                "Add new translation overlays and confirm which existing ones are still visible.",
            ),
        ),
        "parameters",
        arguments_value(),
    );
    json::with(
        json::with(json::empty_object(), "type", json::of_text("function")),
        "function",
        function,
    )
}

/// What the user's turn holds: the screenshot, and the overlays on the screen.
pub open spec fn look(image_uri: Seq<char>, described: Seq<char>) -> JsonTree {
    JsonTree::Array(
        seq![
            JsonTree::Object(
                map![
                    "type"@ => JsonTree::Text("image_url"@),
                    "image_url"@ => JsonTree::Object(map!["url"@ => JsonTree::Text(image_uri)]),
                ],
            ),
            JsonTree::Object(
                map!["type"@ => JsonTree::Text("text"@), "text"@ => JsonTree::Text(described)],
            ),
        ],
    )
}

/// The function that the model has to call.
pub open spec fn forced_tool() -> JsonTree {
    JsonTree::Object(
        map![
            "type"@ => JsonTree::Text("function"@),
            "function"@ => JsonTree::Object(
                map!["name"@ => JsonTree::Text("update_overlays"@)],
            ),
        ],
    )
}

/// The request body for one look at the screen.
pub open spec fn diff_tree(
    model: Seq<char>,
    system_prompt: Seq<char>,
    image_uri: Seq<char>,
    described: Seq<char>,
    reasoning_effort: Seq<char>,
) -> JsonTree {
    JsonTree::Object(
        map![
            "model"@ => JsonTree::Text(model),
            "messages"@ => JsonTree::Array(
                seq![
                    chat::turn("system"@, JsonTree::Text(system_prompt)),
                    chat::turn("user"@, look(image_uri, described)),
                ],
            ),
            "tools"@ => JsonTree::Array(seq![tool_tree()]),
            "tool_choice"@ => forced_tool(),
            "prompt_cache_key"@ => JsonTree::Text("joya-overlay"@),
            "reasoning_effort"@ => JsonTree::Text(reasoning_effort),
            "stream"@ => JsonTree::Bool(false),
        ],
    )
}

fn look_value(image_uri: &str, described: &str) -> (value: Value)
    ensures
        json::json_tree(value) == look(image_uri@, described@),
{
    let mut items: Vec<Value> = Vec::new();
    items.push(
        json::with(
            json::with(json::empty_object(), "type", json::of_text("image_url")),
            "image_url",
            json::with(json::empty_object(), "url", json::of_text(image_uri)),
        ),
    );
    items.push(
        json::with(
            json::with(json::empty_object(), "type", json::of_text("text")),
            "text",
            json::of_text(described),
        ),
    );
    assert(items@.map_values(|item: Value| json::json_tree(item)) =~= seq![
        JsonTree::Object(
            map![
                "type"@ => JsonTree::Text("image_url"@),
                "image_url"@ => JsonTree::Object(map!["url"@ => JsonTree::Text(image_uri@)]),
            ],
        ),
        JsonTree::Object(
            map!["type"@ => JsonTree::Text("text"@), "text"@ => JsonTree::Text(described@)],
        ),
    ]);
    json::of_items(items)
}

proof fn schema_is_plain()
    ensures
        arguments_schema().plain(60),
{
    assert(new_overlay_schema().plain(57)) by {
        reveal_with_fuel(JsonTree::plain, 4);
    }
    assert(JsonTree::Object(map!["type"@ => JsonTree::Text("integer"@)]).plain(57)) by {
        reveal_with_fuel(JsonTree::plain, 3);
    }
    reveal_with_fuel(JsonTree::plain, 4);
}

proof fn diff_is_plain(
    model: Seq<char>,
    system_prompt: Seq<char>,
    image_uri: Seq<char>,
    described: Seq<char>,
    reasoning_effort: Seq<char>,
)
    ensures
        diff_tree(model, system_prompt, image_uri, described, reasoning_effort).plain(64),
{
    schema_is_plain();
    assert(tool_tree().plain(62)) by {
        reveal_with_fuel(JsonTree::plain, 3);
    }
    assert(look(image_uri, described).plain(61)) by {
        reveal_with_fuel(JsonTree::plain, 5);
    }
    assert(forced_tool().plain(63)) by {
        reveal_with_fuel(JsonTree::plain, 3);
    }
    reveal_with_fuel(JsonTree::plain, 4);
}

/// Has a model translate what is on the screen.
pub struct ScreenTranslator {
    pub config: CerebrasConfig,
    pub system_prompt: String,
}

impl ScreenTranslator {
    pub fn new(config: CerebrasConfig, language: &str) -> (translator: Self)
        ensures
            translator.config == config,
            translator.system_prompt@ == overlay_prompt(language@),
    {
        let system_prompt: String = PROMPT_READER.to_owned().concat(language).concat(
            PROMPT_FIND,
        ).concat(language).concat(PROMPT_TRANSLATE).concat(language).concat(PROMPT_RULES);
        ScreenTranslator { config, system_prompt }
    }

    /// The request for one look at the screen, while the `current` overlays are
    /// shown.
    pub fn diff(&self, image_uri: &str, current: &Vec<Described>) -> (post: Post)
        ensures
            post.url@ == chat::completions(self.config.base_url@),
            post.url@ == text::without_trailing(self.config.base_url@, '/') + "/chat/completions"@,
            post.body@ == json::json_text(
                diff_tree(
                    self.config.model@,
                    self.system_prompt@,
                    image_uri@,
                    description(current@),
                    self.config.reasoning_effort@,
                ),
            ),
            json::reads_as(
                post.body@,
                diff_tree(
                    self.config.model@,
                    self.system_prompt@,
                    image_uri@,
                    description(current@),
                    self.config.reasoning_effort@,
                ),
            ),
            ({
                &&& json::json_parse(post.body@) matches Ok(tree)
                &&& tree.text_at("model"@) == Some(self.config.model@)
                &&& tree.text_at("reasoning_effort"@) == Some(self.config.reasoning_effort@)
                &&& tree.get("messages"@) matches Some(messages)
                &&& messages.at(0) matches Some(system)
                &&& system.text_at("role"@) == Some("system"@)
                &&& system.text_at("content"@) == Some(self.system_prompt@)
                &&& messages.at(1) matches Some(user)
                &&& user.text_at("role"@) == Some("user"@)
                &&& user.get("content"@) matches Some(content)
                &&& content.at(0) matches Some(image)
                &&& image.get("image_url"@) matches Some(url)
                &&& url.text_at("url"@) == Some(image_uri@)
                &&& content.at(1) matches Some(words)
                &&& words.text_at("text"@) == Some(description(current@))
            }),
    {
        let mut messages: Vec<Value> = Vec::new();
        messages.push(chat::turn_value("system", json::of_text(&self.system_prompt)));
        messages.push(chat::turn_value("user", look_value(image_uri, &describe(current))));
        assert(messages@.map_values(|item: Value| json::json_tree(item)) =~= seq![
            chat::turn("system"@, JsonTree::Text(self.system_prompt@)),
            chat::turn("user"@, look(image_uri@, description(current@))),
        ]);
        let mut tools: Vec<Value> = Vec::new();
        tools.push(tool_schema());
        assert(tools@.map_values(|item: Value| json::json_tree(item)) =~= seq![tool_tree()]);
        let forced: Value = json::with(
            json::with(json::empty_object(), "type", json::of_text("function")),
            "function",
            json::with(json::empty_object(), "name", json::of_text("update_overlays")),
        );
        assert(json::json_tree(forced) == forced_tool());
        let head: Value = json::with(
            json::with(
                json::with(
                    json::with(json::empty_object(), "model", json::of_text(&self.config.model)),
                    "messages",
                    json::of_items(messages),
                ),
                "tools",
                json::of_items(tools),
            ),
            "tool_choice",
            forced,
        );
        let body: Value = json::with(
            json::with(
                json::with(head, "prompt_cache_key", json::of_text("joya-overlay")),
                "reasoning_effort",
                json::of_text(&self.config.reasoning_effort),
            ),
            "stream",
            json::of_bool(false),
        );
        let ghost tree = diff_tree(
            self.config.model@,
            self.system_prompt@,
            image_uri@,
            description(current@),
            self.config.reasoning_effort@,
        );
        assert(json::json_tree(body) =~= tree);
        proof {
            look_is_asked_for(
                self.config.model@,
                self.system_prompt@,
                image_uri@,
                description(current@),
                self.config.reasoning_effort@,
            );
            diff_is_plain(
                self.config.model@,
                self.system_prompt@,
                image_uri@,
                description(current@),
                self.config.reasoning_effort@,
            );
        }
        Post {
            url: http::url(&self.config.base_url, "/chat/completions"),
            body: json::to_text(&body),
        }
    }
}

/// What the model said: the arguments of its first tool call, or else its text.
pub open spec fn said(message: ChoiceMessage) -> Option<Seq<char>> {
    if message.tool_calls@.len() > 0 {
        Some(message.tool_calls@[0]@)
    } else {
        message.content.deep_view()
    }
}

/// What the model said, if there is a reply and it says anything, or the reason
/// why not.
pub fn model_output(reply: ChatReply) -> (output: Result<String, String>)
    ensures
        match output {
            Ok(raw) => reply matches ChatReply::Choices(choices) && choices@.len() > 0 && said(
                choices@[0],
            ) == Some(raw@),
            Err(reason) => {
                ||| chat::no_message(reply, "screen translation"@, "model returned no choices"@)
                    == Some(reason@)
                ||| {
                    &&& reply matches ChatReply::Choices(choices)
                    &&& choices@.len() > 0
                    &&& said(choices@[0]) is None
                    &&& reason@ == "model returned neither a tool call nor content"@
                }
            },
        },
{
    match chat::first_message(reply, "screen translation", "model returned no choices") {
        Ok(message) => {
            if message.tool_calls.len() > 0 {
                return Ok(message.tool_calls[0].clone());
            }
            match message.content {
                Some(content) => Ok(content),
                None => Err("model returned neither a tool call nor content".to_owned()),
            }
        },
        Err(reason) => Err(reason),
    }
}

/// `from` is the first opening brace of `s` and `to`, behind it, the last closing
/// one.
pub open spec fn braces(s: Seq<char>, from: int, to: int) -> bool {
    &&& 0 <= from < to < s.len()
    &&& s[from] == '{' && s[to] == '}'
    &&& forall|k: int| 0 <= k < from ==> s[k] != '{'
    &&& forall|k: int| to < k < s.len() ==> s[k] != '}'
}

/// The outermost JSON object in what the model said, without code fences and prose
/// around it: from the first opening to the last closing brace.
pub fn object_text(raw: &str) -> (object: Option<String>)
    ensures
        match object {
            Some(object) => exists|from: int, to: int| #[trigger]
                braces(raw@, from, to) && object@ == raw@.subrange(from, to + 1),
            None => forall|from: int, to: int| !#[trigger] braces(raw@, from, to),
        },
{
    let chars: Vec<char> = text::characters(raw);
    match text::first_position(&chars, '{') {
        Some(from) => match text::last_position(&chars, '}') {
            Some(to) => {
                if from < to {
                    assert(braces(raw@, from as int, to as int));
                    Some(raw.substring_char(from, to + 1).to_owned())
                } else {
                    None
                }
            },
            None => {
                assert forall|from: int, to: int| !#[trigger] braces(raw@, from, to) by {
                    if braces(raw@, from, to) {
                        assert(chars@.contains(raw@[to]));
                    }
                }
                None
            },
        },
        None => {
            assert forall|from: int, to: int| !#[trigger] braces(raw@, from, to) by {
                if braces(raw@, from, to) {
                    assert(chars@.contains(raw@[from]));
                }
            }
            None
        },
    }
}

/// The message for a model that did not say what it was asked for.
pub fn unreadable(raw: &str) -> (message: String)
    ensures
        message@ == "could not parse model output: "@ + raw@,
{
    "could not parse model output: ".to_owned().concat(raw)
}

/// The id that a value gives: a number, or a text that writes one.
pub open spec fn id_of(value: JsonTree) -> Option<u64> {
    match value.uint() {
        Some(id) => Some(id),
        None => match value.text() {
            Some(written) => text::parsed_u64(text::trimmed(written)),
            None => None,
        },
    }
}

/// The id that a value gives, whether the model writes it as a number or as a text.
pub fn value_to_id(value: &Value) -> (id: Option<u64>)
    ensures
        id == id_of(json::json_tree(*value)),
{
    match json::as_uint(value) {
        Some(id) => Some(id),
        None => match json::as_text(value) {
            Some(written) => text::parse_u64(text::trim(written)),
            None => None,
        },
    }
}

/// An id is understood, whether it comes as a number or as a text.
pub proof fn ids_are_understood(id: u64)
    ensures
        id_of(JsonTree::UInt(id)) == Some(id),
        id_of(JsonTree::Text(text::decimal(id as nat))) == Some(id),
{
    text::decimal_reads_back(id);
    text::decimal_is_trimmed(id as nat);
}

/// `new` with its corner and size kept on the screen.
pub open spec fn clamped(new: NewOverlay) -> NewOverlay {
    NewOverlay {
        x: single::within_unit(new.x),
        y: single::within_unit(new.y),
        w: single::within_unit(new.w),
        h: single::within_unit(new.h),
        text: new.text,
    }
}

/// `new` with its corner and size kept on the screen.
pub fn clamp(new: NewOverlay) -> (kept: NewOverlay)
    ensures
        kept == clamped(new),
{
    NewOverlay {
        x: single::clamp_to_unit(new.x),
        y: single::clamp_to_unit(new.y),
        w: single::clamp_to_unit(new.w),
        h: single::clamp_to_unit(new.h),
        text: new.text,
    }
}

/// The overlays that say anything, kept on the screen.
pub open spec fn readable(add: Seq<NewOverlay>) -> Seq<NewOverlay>
    decreases add.len(),
{
    if add.len() == 0 {
        Seq::empty()
    } else if text::trimmed(add.last().text@).len() > 0 {
        readable(add.drop_last()).push(clamped(add.last()))
    } else {
        readable(add.drop_last())
    }
}

/// The ids among the values.
pub open spec fn ids(keep: Seq<Value>) -> Seq<u64>
    decreases keep.len(),
{
    if keep.len() == 0 {
        Seq::empty()
    } else {
        match id_of(json::json_tree(keep.last())) {
            Some(id) => ids(keep.drop_last()).push(id),
            None => ids(keep.drop_last()),
        }
    }
}

/// Cleans up what the model said: blank overlays and what is no id are dropped, and
/// overlays are kept on the screen.
pub fn extract_update(parsed: RawUpdate) -> (update: OverlayUpdate)
    ensures
        update.add@ == readable(parsed.add@),
        update.keep@ == ids(parsed.keep@),
{
    let ghost all = parsed.add@;
    let mut add: Vec<NewOverlay> = Vec::new();
    for new in it: parsed.add
        invariant
            it.seq() == all,
            add@ == readable(all.take(it.index() as int)),
    {
        assert(all.take(it.index() + 1).drop_last() =~= all.take(it.index() as int));
        if !text::is_blank(&new.text) {
            add.push(clamp(new));
        }
    }
    assert(all.take(all.len() as int) =~= all);
    let mut keep: Vec<u64> = Vec::new();
    let mut at: usize = 0;
    while at < parsed.keep.len()
        invariant
            at <= parsed.keep@.len(),
            keep@ == ids(parsed.keep@.take(at as int)),
        decreases parsed.keep.len() - at,
    {
        assert(parsed.keep@.take(at + 1).drop_last() =~= parsed.keep@.take(at as int));
        match value_to_id(&parsed.keep[at]) {
            Some(id) => {
                keep.push(id);
            },
            None => {},
        }
        at = at + 1;
    }
    assert(parsed.keep@.take(parsed.keep@.len() as int) =~= parsed.keep@);
    OverlayUpdate { add, keep }
}

/// What the model said, and the JSON object in it.
#[derive(Debug)]
pub struct ToolArguments {
    pub raw: String,
    pub object: String,
}

/// What the model said and the JSON object in it, or the reason why there is none: no
/// reply, nothing said, or no object.
pub fn tool_arguments(reply: ChatReply) -> (arguments: Result<ToolArguments, String>)
    ensures
        match arguments {
            Ok(arguments) => {
                &&& reply matches ChatReply::Choices(choices)
                &&& choices@.len() > 0
                &&& said(choices@[0]) == Some(arguments.raw@)
                &&& exists|from: int, to: int| #[trigger]
                    braces(arguments.raw@, from, to) && arguments.object@
                        == arguments.raw@.subrange(from, to + 1)
            },
            Err(reason) => {
                ||| chat::no_message(reply, "screen translation"@, "model returned no choices"@)
                    == Some(reason@)
                ||| {
                    &&& reply matches ChatReply::Choices(choices)
                    &&& choices@.len() > 0
                    &&& match said(choices@[0]) {
                        None => reason@ == "model returned neither a tool call nor content"@,
                        Some(raw) => {
                            &&& forall|from: int, to: int| !#[trigger] braces(raw, from, to)
                            &&& reason@ == "could not parse model output: "@ + raw
                        },
                    }
                }
            },
        },
{
    match model_output(reply) {
        Ok(raw) => match object_text(&raw) {
            Some(object) => Ok(ToolArguments { raw, object }),
            None => Err(unreadable(&raw)),
        },
        Err(reason) => Err(reason),
    }
}

/// The update that the model gave, cleaned up. What could not be parsed is an error,
/// and never an empty update, which would clear the overlays.
pub fn read_update(raw: &str, parsed: Option<RawUpdate>) -> (update: Result<OverlayUpdate, String>)
    ensures
        match parsed {
            Some(parsed) => {
                &&& update matches Ok(update)
                &&& update.add@ == readable(parsed.add@)
                &&& update.keep@ == ids(parsed.keep@)
            },
            None => update matches Err(message) && message@ == "could not parse model output: "@
                + raw@,
        },
{
    match parsed {
        Some(parsed) => Ok(extract_update(parsed)),
        None => Err(unreadable(raw)),
    }
}

/// Every new overlay that comes out says something and is on the screen.
pub proof fn readable_overlays_are_on_screen(add: Seq<NewOverlay>, at: int)
    requires
        0 <= at < readable(add).len(),
    ensures
        text::trimmed(readable(add)[at].text@).len() > 0,
        clamped(readable(add)[at]) == readable(add)[at],
    decreases add.len(),
{
    if add.len() > 0 {
        if at < readable(add.drop_last()).len() {
            readable_overlays_are_on_screen(add.drop_last(), at);
        }
    }
}

/// A request for what changed holds, where the model looks for it: what it is told to
/// do, the screenshot, and what is shown; and it has the model call the tool.
pub proof fn look_is_asked_for(
    model: Seq<char>,
    system_prompt: Seq<char>,
    image_uri: Seq<char>,
    described: Seq<char>,
    reasoning_effort: Seq<char>,
)
    ensures
        ({
            let tree = diff_tree(model, system_prompt, image_uri, described, reasoning_effort);
            &&& tree.text_at("model"@) == Some(model)
            &&& tree.text_at("reasoning_effort"@) == Some(reasoning_effort)
            &&& tree.text_at("prompt_cache_key"@) == Some("joya-overlay"@)
            &&& tree.get("stream"@) == Some(JsonTree::Bool(false))
            &&& tree.get("messages"@) matches Some(messages)
            &&& messages.at(2) is None
            &&& messages.at(0) matches Some(system)
            &&& system.text_at("role"@) == Some("system"@)
            &&& system.text_at("content"@) == Some(system_prompt)
            &&& messages.at(1) matches Some(user)
            &&& user.text_at("role"@) == Some("user"@)
            &&& user.get("content"@) matches Some(content)
            &&& content.at(2) is None
            &&& content.at(0) matches Some(image)
            &&& image.text_at("type"@) == Some("image_url"@)
            &&& image.get("image_url"@) matches Some(url)
            &&& url.text_at("url"@) == Some(image_uri)
            &&& content.at(1) matches Some(words)
            &&& words.text_at("type"@) == Some("text"@)
            &&& words.text_at("text"@) == Some(described)
            &&& tree.get("tools"@) matches Some(tools)
            &&& tools.at(1) is None
            &&& tools.at(0) matches Some(tool)
            &&& tool.get("function"@) matches Some(function)
            &&& function.text_at("name"@) == Some("update_overlays"@)
            &&& tree.get("tool_choice"@) matches Some(choice)
            &&& choice.get("function"@) matches Some(forced)
            &&& forced.text_at("name"@) == Some("update_overlays"@)
        }),
{
    reveal_strlit("model");
    reveal_strlit("messages");
    reveal_strlit("tools");
    reveal_strlit("tool_choice");
    reveal_strlit("prompt_cache_key");
    reveal_strlit("reasoning_effort");
    reveal_strlit("stream");
    reveal_strlit("role");
    reveal_strlit("content");
    reveal_strlit("type");
    reveal_strlit("text");
    reveal_strlit("image_url");
    reveal_strlit("function");
    reveal_strlit("name");
    reveal_strlit("description");
    reveal_strlit("parameters");
    assert("model"@[0] != "tools"@[0]);
    assert("prompt_cache_key"@[0] != "reasoning_effort"@[0]);
    assert("type"@[1] != "text"@[1]);
    assert("description"@.len() == 11 && "parameters"@.len() == 10 && "name"@.len() == 4);
    assert("model"@.len() == 5 && "messages"@.len() == 8 && "tools"@.len() == 5);
    assert("tool_choice"@.len() == 11 && "prompt_cache_key"@.len() == 16 && "stream"@.len() == 6);
    assert("reasoning_effort"@.len() == 16);
    assert("role"@.len() == 4 && "content"@.len() == 7);
    assert("type"@.len() == 4 && "text"@.len() == 4 && "image_url"@.len() == 9);
    assert("function"@.len() == 8);
}

/// Every overlay that is shown is described to the model, by its id, its text, and its
/// place, so that the model can confirm it.
pub proof fn shown_overlays_are_described(current: Seq<Described>, at: int) -> (around: (
    Seq<char>,
    Seq<char>,
))
    requires
        0 <= at < current.len(),
    ensures
        description(current) == around.0 + ("#"@ + text::decimal(current[at].id as nat) + ": "@
            + text::quoted(current[at].text@) + " @ "@ + current[at].x@ + ","@ + current[at].y@
            + "\n"@) + around.1,
{
    let (before, after) = lemma_described(current, at);
    let around = (SHOWN_HEADING@ + before, after + SHOWN_REQUEST@);
    assert(description(current) =~= around.0 + described_line(current[at]) + around.1);
    around
}

proof fn lemma_described(current: Seq<Described>, at: int) -> (around: (Seq<char>, Seq<char>))
    requires
        0 <= at < current.len(),
    ensures
        described_lines(current) == around.0 + described_line(current[at]) + around.1,
    decreases current.len(),
{
    if at == current.len() - 1 {
        let around = (described_lines(current.drop_last()), Seq::<char>::empty());
        assert(described_lines(current) =~= around.0 + described_line(current[at]) + around.1);
        around
    } else {
        let (before, after) = lemma_described(current.drop_last(), at);
        let around = (before, after + described_line(current.last()));
        assert(described_lines(current) =~= around.0 + described_line(current[at]) + around.1);
        around
    }
}

/// One more overlay that is shown is one more line, behind those of the others, and
/// changes nothing else; without any the model is told so.
pub proof fn description_grows_by_a_line(current: Seq<Described>, one: Described)
    requires
        current.len() > 0,
    ensures
        description(Seq::empty()) == NOTHING_SHOWN@,
        description(current).len() >= SHOWN_REQUEST@.len(),
        description(current.push(one)) == description(current).take(
            description(current).len() - SHOWN_REQUEST@.len(),
        ) + ("#"@ + text::decimal(one.id as nat) + ": "@ + text::quoted(one.text@) + " @ "@
            + one.x@ + ","@ + one.y@ + "\n"@) + description(current).skip(
            description(current).len() - SHOWN_REQUEST@.len(),
        ),
{
    assert(current.push(one).drop_last() =~= current);
    let lines = SHOWN_HEADING@ + described_lines(current);
    assert(description(current) =~= lines + SHOWN_REQUEST@);
    assert(description(current).take(lines.len() as int) =~= lines);
    assert(description(current).skip(lines.len() as int) =~= SHOWN_REQUEST@);
    assert(description(current.push(one)) =~= lines + described_line(one) + SHOWN_REQUEST@);
}

/// The model is told, for every language alike, which one the user reads, which one not
/// to look for, and which one to translate into: it is the same each time.
pub proof fn prompt_names_the_language() -> (parts: (Seq<char>, Seq<char>, Seq<char>, Seq<char>))
    ensures
        forall|language: Seq<char>| #[trigger]
            overlay_prompt(language) == parts.0 + language + parts.1 + language + parts.2
                + language + parts.3,
        parts.1.len() > 0 && parts.2.len() > 0,
{
    reveal_strlit(
        ". On each call you get a fresh screenshot and the list of overlays currently shown. Find on-screen text that is NOT already in ",
    );
    reveal_strlit(" and translate it into ");
    (PROMPT_READER@, PROMPT_FIND@, PROMPT_TRANSLATE@, PROMPT_RULES@)
}

/// What the model says is its first tool call, if there is one, and else its text.
pub proof fn tool_calls_come_first(message: ChoiceMessage)
    ensures
        message.tool_calls@.len() > 0 ==> said(message) == Some(message.tool_calls@[0]@),
        message.tool_calls@.len() == 0 ==> (said(message) is None) == (message.content is None),
        message.tool_calls@.len() == 0 && message.content is Some ==> said(message) == Some(
            message.content->0@,
        ),
{
}

/// The new overlays are those that say anything, all of them and in their order, with
/// what they say, and with their corners and sizes kept on the screen: a number from
/// `0.0` to `1.0` stays as it is, a lesser one becomes `0.0`, and a greater one `1.0`.
pub proof fn readable_keeps_what_says_anything(add: Seq<NewOverlay>)
    ensures
        readable(add).map_values(|new: NewOverlay| new.text) == add.filter(
            |new: NewOverlay| text::trimmed(new.text@).len() > 0,
        ).map_values(|new: NewOverlay| new.text),
        readable(add) == add.filter(
            |new: NewOverlay| text::trimmed(new.text@).len() > 0,
        ).map_values(|new: NewOverlay| clamped(new)),
    decreases add.len(),
{
    reveal(Seq::filter);
    let says = |new: NewOverlay| text::trimmed(new.text@).len() > 0;
    if add.len() > 0 {
        readable_keeps_what_says_anything(add.drop_last());
        let rest = add.drop_last();
        if says(add.last()) {
            assert(add.filter(says) =~= rest.filter(says).push(add.last()));
        } else {
            assert(add.filter(says) =~= rest.filter(says));
        }
    }
    assert(readable(add) =~= add.filter(says).map_values(|new: NewOverlay| clamped(new)));
    assert(readable(add).map_values(|new: NewOverlay| new.text) =~= add.filter(says).map_values(
        |new: NewOverlay| new.text,
    ));
}

/// Corner and size are kept on the screen, each on its own, and the text is not touched.
pub proof fn clamping_keeps_the_screen(new: NewOverlay)
    ensures
        clamped(new).text == new.text,
        single::in_unit(new.x) ==> clamped(new).x == new.x,
        single::in_unit(new.y) ==> clamped(new).y == new.y,
        single::in_unit(new.w) ==> clamped(new).w == new.w,
        single::in_unit(new.h) ==> clamped(new).h == new.h,
        !single::is_nan(new.x) ==> single::in_unit(clamped(new).x),
        !single::is_nan(new.y) ==> single::in_unit(clamped(new).y),
        !single::is_nan(new.w) ==> single::in_unit(clamped(new).w),
        !single::is_nan(new.h) ==> single::in_unit(clamped(new).h),
        single::below(new.x, 0) ==> clamped(new).x == 0,
        single::below(new.y, 0) ==> clamped(new).y == 0,
        single::below(single::ONE, new.x) ==> clamped(new).x == single::ONE,
        single::below(single::ONE, new.y) ==> clamped(new).y == single::ONE,
{
}

/// The ids are those that the values give, all of them and in their order.
pub proof fn ids_are_all_that_is_given(keep: Seq<Value>)
    ensures
        ids(keep) == keep.filter(|value: Value| id_of(json::json_tree(value)) is Some).map_values(
            |value: Value| id_of(json::json_tree(value))->0,
        ),
    decreases keep.len(),
{
    reveal(Seq::filter);
    let given = |value: Value| id_of(json::json_tree(value)) is Some;
    if keep.len() > 0 {
        ids_are_all_that_is_given(keep.drop_last());
        let rest = keep.drop_last();
        if given(keep.last()) {
            assert(keep.filter(given) =~= rest.filter(given).push(keep.last()));
        } else {
            assert(keep.filter(given) =~= rest.filter(given));
        }
    }
    assert(ids(keep) =~= keep.filter(given).map_values(
        |value: Value| id_of(json::json_tree(value))->0,
    ));
}

/// A value that is neither an unsigned number nor a text gives no id, and a text gives
/// the number that it writes, white space around it aside.
pub proof fn other_values_give_no_id(value: JsonTree)
    ensures
        !(value is UInt) && !(value is Text) ==> id_of(value) is None,
        value matches JsonTree::Text(written) ==> id_of(value) == text::parsed_u64(
            text::trimmed(written),
        ),
{
}

/// The object in what the model said is all from its first opening to its last closing
/// brace, whatever stands before, between, and behind them.
pub proof fn object_is_all_between_the_braces(
    before: Seq<char>,
    inner: Seq<char>,
    after: Seq<char>,
    from: int,
    to: int,
)
    requires
        !before.contains('{'),
        !after.contains('}'),
    ensures
        ({
            let raw = before.push('{') + inner.push('}') + after;
            let first = before.len() as int;
            let last = first + inner.len() + 1;
            &&& braces(raw, first, last)
            &&& braces(raw, from, to) ==> from == first && to == last
            &&& raw.subrange(first, last + 1) == seq!['{'] + inner.push('}')
        }),
{
    let raw = before.push('{') + inner.push('}') + after;
    let first = before.len() as int;
    let last = first + inner.len() + 1;
    assert(raw[first] == '{' && raw[last] == '}');
    assert forall|k: int| 0 <= k < first implies raw[k] != '{' by {
        assert(raw[k] == before[k]);
        assert(before.contains(before[k]));
    }
    assert forall|k: int| last < k < raw.len() implies raw[k] != '}' by {
        assert(raw[k] == after[k - last - 1]);
        assert(after.contains(after[k - last - 1]));
    }
    assert(raw.subrange(first, last + 1) =~= seq!['{'] + inner.push('}'));
}

/// Without both braces, the opening one first, there is no object.
pub proof fn no_braces_no_object(raw: Seq<char>, from: int, to: int)
    requires
        !raw.contains('{') || !raw.contains('}'),
    ensures
        !braces(raw, from, to),
{
    if braces(raw, from, to) {
        assert(raw.contains(raw[from]) && raw.contains(raw[to]));
    }
}

/// The tool takes two lists, both of which the model has to give: what is to be added,
/// each with a corner, a size, and a text, of which the corner and the text are owed; and
/// the ids that stay, as integers.
pub proof fn tool_takes_what_is_new_and_what_stays()
    ensures
        ({
            &&& tool_tree().text_at("type"@) == Some("function"@)
            &&& tool_tree().get("function"@) matches Some(function)
            &&& function.get("parameters"@) matches Some(parameters)
            &&& parameters.text_at("type"@) == Some("object"@)
            &&& parameters.get("required"@) matches Some(required)
            &&& required.at(0) == Some(JsonTree::Text("add"@))
            &&& required.at(1) == Some(JsonTree::Text("keep"@))
            &&& required.at(2) is None
            &&& parameters.get("properties"@) matches Some(lists)
            &&& lists.get("keep"@) matches Some(keep)
            &&& keep.text_at("type"@) == Some("array"@)
            &&& keep.get("items"@) matches Some(id)
            &&& id.text_at("type"@) == Some("integer"@)
            &&& lists.get("add"@) matches Some(add)
            &&& add.text_at("type"@) == Some("array"@)
            &&& add.get("items"@) matches Some(item)
            &&& item.text_at("type"@) == Some("object"@)
            &&& item.get("required"@) matches Some(owed)
            &&& owed.at(0) == Some(JsonTree::Text("x"@))
            &&& owed.at(1) == Some(JsonTree::Text("y"@))
            &&& owed.at(2) == Some(JsonTree::Text("text"@))
            &&& owed.at(3) is None
            &&& item.get("properties"@) matches Some(parts)
            &&& parts.get("x"@) matches Some(x)
            &&& x.text_at("type"@) == Some("number"@)
            &&& parts.get("y"@) matches Some(y)
            &&& y.text_at("type"@) == Some("number"@)
            &&& parts.get("w"@) matches Some(w)
            &&& w.text_at("type"@) == Some("number"@)
            &&& parts.get("h"@) matches Some(h)
            &&& h.text_at("type"@) == Some("number"@)
            &&& parts.get("text"@) matches Some(words)
            &&& words.text_at("type"@) == Some("string"@)
        }),
{
    reveal_strlit("type");
    reveal_strlit("function");
    reveal_strlit("name");
    reveal_strlit("description");
    reveal_strlit("parameters");
    reveal_strlit("properties");
    reveal_strlit("required");
    reveal_strlit("items");
    reveal_strlit("add");
    reveal_strlit("keep");
    reveal_strlit("x");
    reveal_strlit("y");
    reveal_strlit("w");
    reveal_strlit("h");
    reveal_strlit("text");
    assert("type"@.len() == 4 && "function"@.len() == 8 && "name"@.len() == 4);
    assert("description"@.len() == 11 && "parameters"@.len() == 10 && "properties"@.len() == 10);
    assert("required"@.len() == 8 && "items"@.len() == 5 && "add"@.len() == 3);
    assert("keep"@.len() == 4 && "text"@.len() == 4);
    assert("x"@.len() == 1 && "y"@.len() == 1 && "w"@.len() == 1 && "h"@.len() == 1);
    assert("x"@[0] != "y"@[0] && "x"@[0] != "w"@[0] && "x"@[0] != "h"@[0]);
    assert("y"@[0] != "w"@[0] && "y"@[0] != "h"@[0] && "w"@[0] != "h"@[0]);
    let parts = new_overlay_schema().get("properties"@)->0;
    assert(parts.get("x"@) == Some(typed("number"@, "Left edge, 0..1 of image width."@)));
    assert(parts.get("y"@) == Some(typed("number"@, "Top edge, 0..1 of image height."@)));
    assert(parts.get("w"@) == Some(typed("number"@, "Width, 0..1 of image width."@)));
    assert(parts.get("h"@) == Some(typed("number"@, "Height, 0..1 of image height."@)));
    assert(parts.get("text"@) == Some(typed("string"@, "The translated text."@)));
}

}
