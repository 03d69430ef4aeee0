//! Translation of utterances by a chat model.

use crate::chat;
use crate::chat::{ChatReply, Post};
use crate::config::{CerebrasConfig, LanguageConfig, LanguagePair};
use crate::http;
use crate::json;
use crate::json::JsonTree;
use crate::text;
use serde_json::Value;
use vstd::prelude::*;
use vstd::string::*;

verus! {

broadcast use vstd::string::group_string_axioms;

/// A completed translation.
#[derive(Debug)]
pub struct Translation {
    pub translated: String,
}

/// Translates utterances from one language into another.
pub struct Translator {
    pub config: CerebrasConfig,
    pub system_prompt: String,
}

/// What the model is told to do: interpret, from the source language if it is
/// known, into the target language.
pub open spec fn interpreter_prompt(languages: LanguagePair) -> Seq<char> {
    "You are a professional real-time interpreter. Translate the user's message "@ + (
    match languages.source {
        Some(source) => "from "@ + source + " "@,
        None => Seq::empty(),
    }) + "into "@ + languages.target
        + ". Output only the translation — no quotes, transliteration, notes, or explanations. Preserve tone and meaning; keep it natural and concise for speech."@
}

/// The request body for `input`.
pub open spec fn translation_tree(
    model: Seq<char>,
    system_prompt: Seq<char>,
    input: Seq<char>,
    reasoning_effort: Seq<char>,
) -> JsonTree {
    JsonTree::Object(
        map![
            "model"@ => JsonTree::Text(model),
            "messages"@ => JsonTree::Array(
                seq![
                    chat::turn("system"@, JsonTree::Text(system_prompt)),
                    chat::turn("user"@, JsonTree::Text(input)),
                ],
            ),
            "reasoning_effort"@ => JsonTree::Text(reasoning_effort),
            "stream"@ => JsonTree::Bool(false),
        ],
    )
}

impl Translator {
    pub fn new(config: CerebrasConfig, languages: &LanguageConfig) -> (translator: Self)
        ensures
            translator.config == config,
            translator.system_prompt@ == interpreter_prompt(languages@),
    {
        let from: String = match &languages.source {
            Some(source) => "from ".to_owned().concat(source).concat(" "),
            None => String::new(),
        };
        let mut system_prompt: String =
            "You are a professional real-time interpreter. Translate the user's message ".to_owned();
        system_prompt.append(&from);
        system_prompt.append("into ");
        system_prompt.append(&languages.target);
        system_prompt.append(
            ". Output only the translation — no quotes, transliteration, notes, or explanations. Preserve tone and meaning; keep it natural and concise for speech.",
        );
        Translator { config, system_prompt }
    }

    /// The request that has `input` translated.
    pub fn translate(&self, input: &str) -> (post: Post)
        ensures
            post.url@ == chat::completions(self.config.base_url@),
            post.url@ == text::without_trailing(self.config.base_url@, '/') + "/chat/completions"@,
            post.body@ == json::json_text(
                translation_tree(
                    self.config.model@,
                    self.system_prompt@,
                    input@,
                    self.config.reasoning_effort@,
                ),
            ),
            json::reads_as(
                post.body@,
                translation_tree(
                    self.config.model@,
                    self.system_prompt@,
                    input@,
                    self.config.reasoning_effort@,
                ),
            ),
            ({
                &&& json::json_parse(post.body@) matches Ok(tree)
                &&& tree.text_at("model"@) == Some(self.config.model@)
                &&& tree.text_at("reasoning_effort"@) == Some(self.config.reasoning_effort@)
                &&& tree.get("stream"@) == Some(JsonTree::Bool(false))
                &&& tree.get("messages"@) matches Some(messages)
                &&& messages.at(2) is None
                &&& messages.at(0) matches Some(system)
                &&& system.text_at("role"@) == Some("system"@)
                &&& system.text_at("content"@) == Some(self.system_prompt@)
                &&& messages.at(1) matches Some(user)
                &&& user.text_at("role"@) == Some("user"@)
                &&& user.text_at("content"@) == Some(input@)
            }),
    {
        let mut messages: Vec<Value> = Vec::new();
        messages.push(chat::turn_value("system", json::of_text(&self.system_prompt)));
        messages.push(chat::turn_value("user", json::of_text(input)));
        let ghost turns = messages@.map_values(|item: Value| json::json_tree(item));
        assert(turns =~= seq![
            chat::turn("system"@, JsonTree::Text(self.system_prompt@)),
            chat::turn("user"@, JsonTree::Text(input@)),
        ]);
        let body: Value = json::with(
            json::with(
                json::with(
                    json::with(json::empty_object(), "model", json::of_text(&self.config.model)),
                    "messages",
                    json::of_items(messages),
                ),
                "reasoning_effort",
                json::of_text(&self.config.reasoning_effort),
            ),
            "stream",
            json::of_bool(false),
        );
        let ghost tree = translation_tree(
            self.config.model@,
            self.system_prompt@,
            input@,
            self.config.reasoning_effort@,
        );
        assert(json::json_tree(body) =~= tree);
        assert(tree.plain(64)) by {
            reveal_with_fuel(JsonTree::plain, 4);
        }
        proof {
            translation_is_asked_for(
                self.config.model@,
                self.system_prompt@,
                input@,
                self.config.reasoning_effort@,
            );
        }
        Post {
            url: http::url(&self.config.base_url, "/chat/completions"),
            body: json::to_text(&body),
        }
    }

    /// The translation that a reply holds, without white space around it, or the
    /// reason why there is none. A completion without text is an empty
    /// translation.
    pub fn translation(reply: ChatReply) -> (translation: Result<Translation, String>)
        ensures
            match translation {
                Ok(translation) => {
                    &&& reply matches ChatReply::Choices(choices)
                    &&& choices@.len() > 0
                    &&& translation.translated@ == (match choices@[0].content {
                        Some(content) => text::trimmed(content@),
                        None => Seq::empty(),
                    })
                },
                Err(reason) => chat::no_message(
                    reply,
                    "Cerebras translation"@,
                    "Cerebras returned no choices"@,
                ) == Some(reason@),
            },
    {
        match chat::first_message(reply, "Cerebras translation", "Cerebras returned no choices") {
            Ok(message) => Ok(
                Translation {
                    translated: match message.content {
                        Some(content) => text::trim(&content).to_owned(),
                        None => String::new(),
                    },
                },
            ),
            Err(reason) => Err(reason),
        }
    }
}

/// A request for a translation holds, where the model looks for it, what it is told to
/// do and the whole of what was said, as the turn of the user.
pub proof fn translation_is_asked_for(
    model: Seq<char>,
    system_prompt: Seq<char>,
    input: Seq<char>,
    reasoning_effort: Seq<char>,
)
    ensures
        ({
            let tree = translation_tree(model, system_prompt, input, reasoning_effort);
            &&& tree.text_at("model"@) == Some(model)
            &&& tree.text_at("reasoning_effort"@) == Some(reasoning_effort)
            &&& tree.get("stream"@) == Some(JsonTree::Bool(false))
            &&& tree.get("messages"@) matches Some(messages)
            &&& messages.at(2) is None
            &&& messages.at(0) matches Some(system)
            &&& system.text_at("role"@) == Some("system"@)
            &&& system.text_at("content"@) == Some(system_prompt)
            &&& messages.at(1) matches Some(user)
            &&& user.text_at("role"@) == Some("user"@)
            &&& user.text_at("content"@) == Some(input)
        }),
{
    reveal_strlit("model");
    reveal_strlit("messages");
    reveal_strlit("reasoning_effort");
    reveal_strlit("stream");
    reveal_strlit("role");
    reveal_strlit("content");
    assert("model"@.len() == 5 && "messages"@.len() == 8 && "stream"@.len() == 6);
    assert("reasoning_effort"@.len() == 16);
    assert("role"@.len() == 4 && "content"@.len() == 7);
}

/// The interpreter is told, for all languages alike, which language to translate into,
/// and which one from if it is known.
pub proof fn prompt_names_the_languages() -> (parts: (Seq<char>, Seq<char>))
    ensures
        forall|languages: LanguagePair| #[trigger]
            interpreter_prompt(languages) == parts.0 + (match languages.source {
                Some(source) => "from "@ + source + " "@,
                None => Seq::empty(),
            }) + "into "@ + languages.target + parts.1,
{
    (
        "You are a professional real-time interpreter. Translate the user's message "@,
        ". Output only the translation — no quotes, transliteration, notes, or explanations. Preserve tone and meaning; keep it natural and concise for speech."@,
    )
}

}
