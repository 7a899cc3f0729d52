//! Prompts for a chat-based LLM: the messages of a prompt, the values that
//! fill the `{{token}}` placeholders of a prompt template, and their
//! substitution.
use crate::patterns::{regex_captures, regex_captures_of};
use crate::provider::api::{ProviderCompletionMessage, ProviderMessageRole};
use crate::retrieval::data::str_eq;
use crate::text::{chars_of, replace_all, replace_chars, string_of};
use vstd::prelude::*;

verus! {

/// The language the reviews are written in.
pub const LANGUAGE: &'static str = "British English";

/// An optional id and the messages of a prompt.
#[derive(Debug)]
pub struct PromptData {
    pub id: Option<String>,
    pub messages: Vec<ProviderCompletionMessage>,
}

impl PromptData {
    /// Adds a user message to the messages.
    pub fn add_user_message_prompt(&mut self, content: String)
        ensures
            final(self).messages@ == old(self).messages@.push(
                ProviderCompletionMessage { role: ProviderMessageRole::User, content },
            ),
            final(self).id == old(self).id,
    {
        let user_message = ProviderCompletionMessage { role: ProviderMessageRole::User, content };
        self.messages.push(user_message);
    }
}

/// The values for the placeholders of a template: a map from token name to
/// value, built as a `HashMap` is, a later value replacing an earlier one of
/// the same name. No name occurs twice among the entries.
#[derive(Debug)]
pub struct TokenContent {
    entries: Vec<(String, String)>,
}

/// The map that inserting `es` in order builds.
pub open spec fn entries_map(es: Seq<(String, String)>) -> Map<Seq<char>, Seq<char>>
    decreases es.len(),
{
    if es.len() == 0 {
        Map::empty()
    } else {
        entries_map(es.drop_last()).insert(es.last().0@, es.last().1@)
    }
}

/// No key occurs twice.
pub open spec fn keys_unique(es: Seq<(String, String)>) -> bool {
    forall|i: int, j: int| 0 <= i < j < es.len() ==> (#[trigger] es[i]).0@ != (#[trigger] es[j]).0@
}

proof fn lemma_entries_map(es: Seq<(String, String)>)
    requires
        keys_unique(es),
    ensures
        forall|k: Seq<char>| #[trigger] entries_map(es).contains_key(k) <==> exists|i: int| 0 <= i < es.len() && es[i].0@ == k,
        forall|i: int| 0 <= i < es.len() ==> #[trigger] entries_map(es)[es[i].0@] == es[i].1@,
        entries_map(es).dom().finite(),
        entries_map(es).dom().len() == es.len(),
    decreases es.len(),
{
    if es.len() > 0 {
        let d = es.drop_last();
        assert forall|i: int, j: int| 0 <= i < j < d.len() implies (#[trigger] d[i]).0@ != (#[trigger] d[j]).0@ by {
            assert(d[i] == es[i] && d[j] == es[j]);
        }
        lemma_entries_map(d);
        let m = entries_map(d);
        let k = es.last().0@;
        assert(!m.contains_key(k)) by {
            if m.contains_key(k) {
                let i = choose|i: int| 0 <= i < d.len() && d[i].0@ == k;
                assert(es[i].0@ == es[es.len() - 1].0@);
            }
        }
        assert forall|kk: Seq<char>| #[trigger] entries_map(es).contains_key(kk) <==> exists|i: int| 0 <= i < es.len() && es[i].0@ == kk by {
            if kk == k {
                assert(es[es.len() - 1].0@ == kk);
            } else if m.contains_key(kk) {
                let i = choose|i: int| 0 <= i < d.len() && d[i].0@ == kk;
                assert(es[i].0@ == kk);
            } else {
                if exists|i: int| 0 <= i < es.len() && es[i].0@ == kk {
                    let i = choose|i: int| 0 <= i < es.len() && es[i].0@ == kk;
                    if i < es.len() - 1 {
                        assert(d[i].0@ == kk);
                    }
                }
            }
        }
        assert forall|i: int| 0 <= i < es.len() implies #[trigger] entries_map(es)[es[i].0@] == es[i].1@ by {
            if i < es.len() - 1 {
                assert(d[i] == es[i]);
                assert(es[i].0@ != k);
            }
        }
        assert(m.insert(k, es.last().1@).dom() =~= m.dom().insert(k));
    }
}

impl TokenContent {
    /// The token names and their values.
    pub closed spec fn view(self) -> Map<Seq<char>, Seq<char>> {
        entries_map(self.entries@)
    }

    #[verifier::type_invariant]
    spec fn inv(self) -> bool {
        keys_unique(self.entries@)
    }

    /// The number of tokens.
    pub fn len(&self) -> (r: usize)
        ensures
            r as int == self@.dom().len(),
            self@.dom().finite(),
    {
        proof {
            use_type_invariant(self);
            lemma_entries_map(self.entries@);
        }
        self.entries.len()
    }

    /// The value of the token `key`.
    pub fn get(&self, key: &str) -> (r: Option<&String>)
        ensures
            match r {
                Some(v) => self@.contains_key(key@) && v@ == self@[key@],
                None => !self@.contains_key(key@),
            },
    {
        proof {
            use_type_invariant(self);
            lemma_entries_map(self.entries@);
        }
        let mut i: usize = 0;
        while i < self.entries.len()
            invariant
                i <= self.entries@.len(),
                keys_unique(self.entries@),
                forall|j: int| 0 <= j < i ==> self.entries@[j].0@ != key@,
            decreases self.entries@.len() - i,
        {
            if str_eq(self.entries[i].0.as_str(), key) {
                proof {
                    lemma_entries_map(self.entries@);
                    let e = self.entries@[i as int];
                    assert(entries_map(self.entries@)[e.0@] == e.1@);
                    assert(entries_map(self.entries@).contains_key(key@));
                }
                return Some(&self.entries[i].1);
            }
            i = i + 1;
        }
        None
    }
}

/// The map that inserting the `pairs` in order builds.
pub open spec fn pairs_map(pairs: Seq<(&str, &str)>) -> Map<Seq<char>, Seq<char>>
    decreases pairs.len(),
{
    if pairs.len() == 0 {
        Map::empty()
    } else {
        pairs_map(pairs.drop_last()).insert(pairs.last().0@, pairs.last().1@)
    }
}

/// Creates the token map from `(name, value)` pairs; of two pairs with the
/// same name the later one counts.
pub fn create_content(pairs: &[(&str, &str)]) -> (r: TokenContent)
    ensures
        r@ == pairs_map(pairs@),
{
    let mut entries: Vec<(String, String)> = Vec::new();
    let mut i: usize = 0;
    assert(pairs@.take(0) =~= Seq::<(&str, &str)>::empty());
    while i < pairs.len()
        invariant
            i <= pairs@.len(),
            keys_unique(entries@),
            entries_map(entries@) == pairs_map(pairs@.take(i as int)),
        decreases pairs@.len() - i,
    {
        let (k, v) = pairs[i];
        proof {
            lemma_entries_map(entries@);
            assert(pairs@.take(i + 1).drop_last() =~= pairs@.take(i as int));
        }
        let ghost before = entries@;
        let mut j: usize = 0;
        let mut found = false;
        while j < entries.len()
            invariant_except_break
                !found,
            invariant
                entries@ == before,
                j <= entries@.len(),
                forall|t: int| 0 <= t < j ==> entries@[t].0@ != k@,
            ensures
                found ==> j < entries@.len() && entries@[j as int].0@ == k@,
                !found ==> forall|t: int| 0 <= t < entries@.len() ==> entries@[t].0@ != k@,
            decreases entries@.len() - j,
        {
            if str_eq(entries[j].0.as_str(), k) {
                found = true;
                break;
            }
            j = j + 1;
        }
        if found {
            entries.set(j, (k.to_string(), v.to_string()));
            proof {
                assert forall|a: int, b: int| 0 <= a < b < entries@.len() implies (#[trigger] entries@[a]).0@ != (#[trigger] entries@[b]).0@ by {
                    assert(before[a].0@ != before[b].0@);
                }
                lemma_entries_map(entries@);
                assert(entries_map(entries@) =~= entries_map(before).insert(k@, v@)) by {
                    assert forall|kk: Seq<char>| entries_map(entries@).contains_key(kk) <==> entries_map(before).insert(k@, v@).contains_key(kk) by {
                        if entries_map(before).contains_key(kk) {
                            let t = choose|t: int| 0 <= t < before.len() && before[t].0@ == kk;
                            assert(entries@[t].0@ == kk);
                        }
                        if entries_map(entries@).contains_key(kk) {
                            let t = choose|t: int| 0 <= t < entries@.len() && entries@[t].0@ == kk;
                            assert(before[t].0@ == kk);
                        }
                    }
                    assert forall|kk: Seq<char>| #[trigger] entries_map(entries@).contains_key(kk) implies entries_map(entries@)[kk] == entries_map(before).insert(k@, v@)[kk] by {
                        let t = choose|t: int| 0 <= t < entries@.len() && entries@[t].0@ == kk;
                        if t != j {
                            assert(before[t] == entries@[t]);
                        }
                    }
                }
            }
        } else {
            entries.push((k.to_string(), v.to_string()));
            proof {
                assert(entries@.drop_last() =~= before);
                assert forall|a: int, b: int| 0 <= a < b < entries@.len() implies (#[trigger] entries@[a]).0@ != (#[trigger] entries@[b]).0@ by {
                    if b < entries@.len() - 1 {
                        assert(before[a].0@ != before[b].0@);
                    }
                }
            }
        }
        i = i + 1;
    }
    assert(pairs@.take(i as int) =~= pairs@);
    TokenContent { entries }
}

/// The regular expression of a placeholder: a word in double braces.
pub open spec fn placeholder_pattern() -> Seq<char> {
    "\\{\\{(\\w+)\\}\\}"@
}

/// Applies one match of the placeholder pattern: when its token (group 1)
/// has a value, every occurrence of the whole placeholder (group 0) in the
/// text so far is replaced by it.
pub open spec fn apply_capture(text: Seq<char>, cap: Seq<Option<Seq<char>>>, content: Map<Seq<char>, Seq<char>>) -> Seq<char> {
    if cap.len() > 1 && cap[0] is Some && cap[1] is Some && content.contains_key(cap[1]->0) {
        replace_all(text, cap[0]->0, content[cap[1]->0])
    } else {
        text
    }
}

/// Applies the matches in order, from the first.
pub open spec fn apply_captures(text: Seq<char>, caps: Seq<Seq<Option<Seq<char>>>>, content: Map<Seq<char>, Seq<char>>) -> Seq<char>
    decreases caps.len(),
{
    if caps.len() == 0 {
        text
    } else {
        apply_capture(apply_captures(text, caps.drop_last(), content), caps.last(), content)
    }
}

/// The text with its placeholders filled, given the placeholder matches
/// found in it.
pub open spec fn spec_substitute(text: Seq<char>, caps: Option<Seq<Seq<Option<Seq<char>>>>>, content: Map<Seq<char>, Seq<char>>) -> Option<Seq<char>> {
    match caps {
        Some(c) => Some(apply_captures(text, c, content)),
        None => None,
    }
}

/// Why a template could not be filled.
#[derive(Clone, Copy, Debug, PartialEq, Eq, Structural)]
pub enum TokenError {
    /// The placeholder pattern was refused by the regular expression engine.
    InvalidPattern,
}

/// The capture groups of the matches, as plain texts.
pub open spec fn captures_view(caps: Seq<Vec<Option<String>>>) -> Seq<Seq<Option<Seq<char>>>> {
    caps.map_values(|g: Vec<Option<String>>| g@.map_values(|m: Option<String>| match m {
        Some(s) => Some(s@),
        None => None,
    }))
}

/// Fills the placeholders of `text`, given the matches of the placeholder
/// pattern in it (for each match, its capture groups): in order, where a
/// match's token (group 1) has a value, every occurrence of the whole
/// placeholder (group 0) is replaced by that value.
pub fn apply_placeholder_captures(text: &str, caps: &Vec<Vec<Option<String>>>, content: &TokenContent) -> (r: String)
    ensures
        r@ == apply_captures(text@, captures_view(caps@), content@),
{
    let ghost gcaps = captures_view(caps@);
    let mut cur = chars_of(text);
    let mut i: usize = 0;
    assert(gcaps.take(0) =~= Seq::<Seq<Option<Seq<char>>>>::empty());
    while i < caps.len()
        invariant
            i <= caps@.len(),
            gcaps == captures_view(caps@),
            gcaps.len() == caps@.len(),
            forall|t: int| 0 <= t < caps@.len() ==> #[trigger] gcaps[t] == caps@[t]@.map_values(|m: Option<String>| match m {
                Some(s) => Some(s@),
                None => None,
            }),
            cur@ == apply_captures(text@, gcaps.take(i as int), content@),
        decreases caps@.len() - i,
    {
        let cap = &caps[i];
        assert(gcaps.take(i + 1).drop_last() =~= gcaps.take(i as int));
        if cap.len() > 1 {
            match (&cap[0], &cap[1]) {
                (Some(whole), Some(name)) => {
                    match content.get(name.as_str()) {
                        Some(value) => {
                            let from = chars_of(whole.as_str());
                            let to = chars_of(value.as_str());
                            cur = replace_chars(&cur, &from, &to);
                        },
                        None => {},
                    }
                },
                _ => {},
            }
        }
        i = i + 1;
    }
    assert(gcaps.take(i as int) =~= gcaps);
    string_of(&cur)
}

/// Fills the `{{token}}` placeholders of one text. The placeholders are
/// found with the `regex` crate; for each, in order, when its token has a
/// value every occurrence of that placeholder is replaced by the value.
pub fn substitute_tokens_in_text(text: &str, content: &TokenContent) -> (r: Result<String, TokenError>)
    ensures
        match spec_substitute(text@, regex_captures_of(placeholder_pattern(), text@), content@) {
            Some(t) => r matches Ok(s) && s@ == t,
            None => r == Err::<String, TokenError>(TokenError::InvalidPattern),
        },
{
    match regex_captures("\\{\\{(\\w+)\\}\\}", text) {
        Some(caps) => Ok(apply_placeholder_captures(text, &caps, content)),
        None => Err(TokenError::InvalidPattern),
    }
}

/// The messages with the placeholders of each content filled.
pub open spec fn spec_substitute_messages(ms: Seq<ProviderCompletionMessage>, content: Map<Seq<char>, Seq<char>>) -> Option<Seq<Seq<char>>> {
    if forall|i: int| 0 <= i < ms.len() ==> (#[trigger] regex_captures_of(placeholder_pattern(), ms[i].content@)) is Some {
        Some(Seq::new(ms.len(), |i: int| apply_captures(ms[i].content@, regex_captures_of(placeholder_pattern(), ms[i].content@)->0, content)))
    } else {
        None
    }
}

/// Substitutes the tokens of a prompt template: fills the placeholders in
/// the content of each message, keeping the roles.
pub fn substitute_tokens(messages: &Vec<ProviderCompletionMessage>, content: &TokenContent) -> (r: Result<Vec<ProviderCompletionMessage>, TokenError>)
    ensures
        match spec_substitute_messages(messages@, content@) {
            Some(ts) => r matches Ok(out) && out@.len() == messages@.len()
                && forall|i: int| 0 <= i < out@.len() ==> (#[trigger] out@[i]).role == messages@[i].role && out@[i].content@ == ts[i],
            None => r == Err::<Vec<ProviderCompletionMessage>, TokenError>(TokenError::InvalidPattern),
        },
{
    let mut out: Vec<ProviderCompletionMessage> = Vec::new();
    let mut i: usize = 0;
    while i < messages.len()
        invariant
            i <= messages@.len(),
            out@.len() == i,
            forall|t: int| 0 <= t < i ==> (#[trigger] regex_captures_of(placeholder_pattern(), messages@[t].content@)) is Some,
            forall|t: int| 0 <= t < i ==> (#[trigger] out@[t]).role == messages@[t].role && out@[t].content@ == apply_captures(
                messages@[t].content@,
                regex_captures_of(placeholder_pattern(), messages@[t].content@)->0,
                content@,
            ),
        decreases messages@.len() - i,
    {
        match substitute_tokens_in_text(messages[i].content.as_str(), content) {
            Ok(text) => {
                out.push(ProviderCompletionMessage { role: messages[i].role, content: text });
            },
            Err(e) => {
                return Err(e);
            },
        }
        i = i + 1;
    }
    Ok(out)
}

/// A prompt from a template: the template's messages with their
/// placeholders filled from the `(name, value)` pairs, and no id.
pub fn prompt_from_template(template: &PromptData, pairs: &[(&str, &str)]) -> (r: Result<PromptData, TokenError>)
    ensures
        match spec_substitute_messages(template.messages@, pairs_map(pairs@)) {
            Some(ts) => r matches Ok(p) && p.id is None && p.messages@.len() == template.messages@.len()
                && forall|i: int| 0 <= i < p.messages@.len() ==> (#[trigger] p.messages@[i]).role == template.messages@[i].role
                    && p.messages@[i].content@ == ts[i],
            None => r is Err,
        },
{
    let content = create_content(pairs);
    let messages = substitute_tokens(&template.messages, &content)?;
    Ok(PromptData { id: None, messages })
}

/// The values that fill a review prompt: the language the review is written
/// in and the JSON schema of a file review.
pub open spec fn review_prompt_content(file_review_schema: Seq<char>) -> Map<Seq<char>, Seq<char>> {
    Map::empty().insert("language"@, LANGUAGE@).insert("file_review_schema"@, file_review_schema)
}

/// The values that fill a summary prompt: the language alone.
pub open spec fn summary_prompt_content() -> Map<Seq<char>, Seq<char>> {
    Map::empty().insert("language"@, LANGUAGE@)
}

/// What filling a template with the given values yields.
pub open spec fn filled_prompt(
    template: Seq<ProviderCompletionMessage>,
    content: Map<Seq<char>, Seq<char>>,
    r: Result<PromptData, TokenError>,
) -> bool {
    match spec_substitute_messages(template, content) {
        Some(ts) => r matches Ok(p) && p.id is None && p.messages@.len() == template.len()
            && forall|i: int| 0 <= i < p.messages@.len() ==> (#[trigger] p.messages@[i]).role == template[i].role
                && p.messages@[i].content@ == ts[i],
        None => r is Err,
    }
}

impl PromptData {
    /// The prompt for a code review, from its template: the language and the
    /// file review schema filled in.
    pub fn get_code_review_prompt(template: &PromptData, file_review_schema: &str) -> (r: Result<PromptData, TokenError>)
        ensures
            filled_prompt(template.messages@, review_prompt_content(file_review_schema@), r),
    {
        let pairs = [("language", LANGUAGE), ("file_review_schema", file_review_schema)];
        proof {
            reveal_with_fuel(pairs_map, 3);
            assert(pairs@ =~= seq![("language", LANGUAGE), ("file_review_schema", file_review_schema)]);
            assert(pairs_map(pairs@) =~= review_prompt_content(file_review_schema@));
        }
        prompt_from_template(template, &pairs)
    }

    /// The prompt for a security review, from its template: the language and
    /// the file review schema filled in.
    pub fn get_security_review_prompt(template: &PromptData, file_review_schema: &str) -> (r: Result<PromptData, TokenError>)
        ensures
            filled_prompt(template.messages@, review_prompt_content(file_review_schema@), r),
    {
        let pairs = [("language", LANGUAGE), ("file_review_schema", file_review_schema)];
        proof {
            reveal_with_fuel(pairs_map, 3);
            assert(pairs@ =~= seq![("language", LANGUAGE), ("file_review_schema", file_review_schema)]);
            assert(pairs_map(pairs@) =~= review_prompt_content(file_review_schema@));
        }
        prompt_from_template(template, &pairs)
    }

    /// The prompt to summarise a README, from its template: the language
    /// filled in.
    pub fn _get_readme_summary_prompt(template: &PromptData) -> (r: Result<PromptData, TokenError>)
        ensures
            filled_prompt(template.messages@, summary_prompt_content(), r),
    {
        let pairs = [("language", LANGUAGE)];
        proof {
            reveal_with_fuel(pairs_map, 2);
            assert(pairs@ =~= seq![("language", LANGUAGE)]);
            assert(pairs_map(pairs@) =~= summary_prompt_content());
        }
        prompt_from_template(template, &pairs)
    }

    /// The prompt to summarise the whole review, from its template: the
    /// language filled in.
    pub fn get_overall_summary_prompt(template: &PromptData) -> (r: Result<PromptData, TokenError>)
        ensures
            filled_prompt(template.messages@, summary_prompt_content(), r),
    {
        let pairs = [("language", LANGUAGE)];
        proof {
            reveal_with_fuel(pairs_map, 2);
            assert(pairs@ =~= seq![("language", LANGUAGE)]);
            assert(pairs_map(pairs@) =~= summary_prompt_content());
        }
        prompt_from_template(template, &pairs)
    }
}

} // verus!
