//! The completion-API side of the bot: model descriptors with their
//! per-token prices, role-tagged chat messages, the response shapes the API
//! answers with, and the immutable configuration (models, personalities,
//! one-off commands) that every query consults.

use vstd::prelude::*;

use crate::allowances::valid_rate;
use crate::one_off_response::OneOffCommand;
use crate::response_styles::{
    custom_contents, extract_custom, is_custom_wrapped, Personality, PersonalityPreset,
};
use crate::text::{fixed3_str, u64_fixed3_string};

verus! {

/// A model descriptor: wire name, display name, and nanodollar prices per
/// input and output token.
#[derive(Debug, Clone)]
pub struct GptModel {
    name: String,
    friendly_name: String,
    input_cost: u32,
    output_cost: u32,
    api_version: u32,
}

impl GptModel {
    pub fn new(
        name: String,
        friendly_name: String,
        input_cost: u32,
        output_cost: u32,
        api_version: u32,
    ) -> (r: Self)
        ensures
            r.spec_name() == name@,
            r.spec_friendly_name() == friendly_name@,
            r.spec_input_cost() == input_cost,
            r.spec_output_cost() == output_cost,
            r.spec_api_version() == api_version,
    {
        GptModel { name, friendly_name, input_cost, output_cost, api_version }
    }

    pub closed spec fn spec_name(&self) -> Seq<char> {
        self.name@
    }

    pub closed spec fn spec_friendly_name(&self) -> Seq<char> {
        self.friendly_name@
    }

    pub closed spec fn spec_input_cost(&self) -> u32 {
        self.input_cost
    }

    pub closed spec fn spec_output_cost(&self) -> u32 {
        self.output_cost
    }

    pub closed spec fn spec_api_version(&self) -> u32 {
        self.api_version
    }

    /// The cost of a query with this token usage, in nanodollars.
    pub open spec fn spec_cost(&self, tokens: TokenUsage) -> int {
        self.spec_input_cost() * tokens.prompt_tokens + self.spec_output_cost()
            * tokens.completion_tokens
    }

    /// Name as used by the API and the database.
    pub fn name(&self) -> (r: &str)
        ensures
            r@ == self.spec_name(),
    {
        self.name.as_str()
    }

    /// Name to display to users.
    pub fn friendly_name(&self) -> (r: &str)
        ensures
            r@ == self.spec_friendly_name(),
    {
        self.friendly_name.as_str()
    }

    /// Nanodollar price per input token.
    pub fn input_cost(&self) -> (r: u32)
        ensures
            r == self.spec_input_cost(),
    {
        self.input_cost
    }

    /// Nanodollar price per output token.
    pub fn output_cost(&self) -> (r: u32)
        ensures
            r == self.spec_output_cost(),
    {
        self.output_cost
    }

    pub fn api_version(&self) -> (r: u32)
        ensures
            r == self.spec_api_version(),
    {
        self.api_version
    }

    /// Get the cost of a query in nanodollars.
    pub fn get_cost(&self, tokens: TokenUsage) -> (r: u32)
        requires
            self.spec_cost(tokens) <= u32::MAX,
        ensures
            r == self.spec_cost(tokens),
    {
        proof {
            vstd::arithmetic::mul::lemma_mul_nonnegative(
                self.spec_input_cost() as int,
                tokens.prompt_tokens as int,
            );
            vstd::arithmetic::mul::lemma_mul_nonnegative(
                self.spec_output_cost() as int,
                tokens.completion_tokens as int,
            );
        }
        let input_part = self.input_cost as u64 * tokens.prompt_tokens as u64;
        let output_part = self.output_cost as u64 * tokens.completion_tokens as u64;
        (input_part + output_part) as u32
    }

    /// What this model's prices are, for display: dollars per million tokens.
    pub open spec fn spec_cost_description(&self) -> Seq<char> {
        fixed3_str(self.spec_input_cost() as nat) + "$ per 1M input tokens, "@ + fixed3_str(
            self.spec_output_cost() as nat,
        ) + "$ per 1M output tokens"@
    }

    /// Get a description of the cost of this model.
    pub fn get_cost_description(&self) -> (r: String)
        ensures
            r@ == self.spec_cost_description(),
    {
        let mut s = u64_fixed3_string(self.input_cost as u64);
        s.append("$ per 1M input tokens, ");
        let outs = u64_fixed3_string(self.output_cost as u64);
        s.append(outs.as_str());
        s.append("$ per 1M output tokens");
        s
    }

    /// The brief form of the same prices.
    pub open spec fn spec_brief_cost_description(&self) -> Seq<char> {
        fixed3_str(self.spec_input_cost() as nat) + "$/1M in, "@ + fixed3_str(
            self.spec_output_cost() as nat,
        ) + "$/1M out"@
    }

    /// Get a brief description of the cost of this model.
    pub fn get_brief_cost_description(&self) -> (r: String)
        ensures
            r@ == self.spec_brief_cost_description(),
    {
        let mut s = u64_fixed3_string(self.input_cost as u64);
        s.append("$/1M in, ");
        let outs = u64_fixed3_string(self.output_cost as u64);
        s.append(outs.as_str());
        s.append("$/1M out");
        s
    }
}

/// A role of a message sender, can be:
/// - `System`, for the starting system message, that sets the tone of the model
/// - `Assistant`, for messages sent by the model
/// - `User`, for messages sent by the user
#[derive(Debug, Clone, Copy, PartialEq, Eq, Structural)]
pub enum Role {
    /// A system message, automatically sent at the start to set the tone of the model
    System,
    /// A message sent by the model
    Assistant,
    /// A message sent by the user
    User,
}

/// Container for the sent/received chat messages.
#[derive(Debug, Clone, PartialEq)]
pub struct ChatMessage {
    /// Role of message sender
    pub role: Role,
    /// Actual content of the message
    pub content: String,
}

impl ChatMessage {
    pub fn system(content: String) -> (r: Self)
        ensures
            r.role == Role::System,
            r.content == content,
    {
        ChatMessage { role: Role::System, content }
    }

    pub fn assistant(content: String) -> (r: Self)
        ensures
            r.role == Role::Assistant,
            r.content == content,
    {
        ChatMessage { role: Role::Assistant, content }
    }

    pub fn user(content: String) -> (r: Self)
        ensures
            r.role == Role::User,
            r.content == content,
    {
        ChatMessage { role: Role::User, content }
    }
}

/// The token usage of a specific response.
#[derive(Debug, Clone, Copy, PartialEq, Eq, Structural)]
pub struct TokenUsage {
    /// Tokens spent on the prompt message (including previous messages)
    pub prompt_tokens: u32,
    /// Tokens spent on the completion message
    pub completion_tokens: u32,
    /// Total amount of tokens used (`prompt_tokens + completion_tokens`)
    pub total_tokens: u32,
    /// Breakdown of tokens used in a completion.
    pub completion_tokens_details: CompletionTokenDetails,
    /// Breakdown of tokens used in the prompt.
    pub prompt_tokens_details: PromptTokenDetails,
}

#[derive(Debug, Clone, Copy, PartialEq, Eq, Structural)]
pub struct PromptTokenDetails {
    /// Cached tokens present in the prompt.
    pub cached_tokens: u32,
    /// Audio input tokens present in the prompt.
    pub audio_tokens: u32,
}

#[derive(Debug, Clone, Copy, PartialEq, Eq, Structural)]
pub struct CompletionTokenDetails {
    /// Tokens generated by the model for reasoning.
    pub reasoning_tokens: u32,
    /// Audio input tokens generated by the model.
    pub audio_tokens: u32,
    /// When using predicted outputs, the number of tokens in the prediction
    /// that appeared in the completion.
    pub accepted_prediction_tokens: u32,
    /// When using predicted outputs, the number of tokens in the prediction
    /// that did not appear in the completion; still billed.
    pub rejected_prediction_tokens: u32,
}

/// An error happened while requesting completion.
#[derive(Debug, Clone, PartialEq)]
pub struct CompletionError {
    /// Message, describing the error
    pub message: String,
    /// The type of error. Example: `server_error`
    pub error_type: String,
}

/// A message completion choice struct.
#[derive(Debug, Clone, PartialEq)]
pub struct MessageChoice {
    /// The actual message
    pub message: ChatMessage,
    /// The reason completion was stopped
    pub finish_reason: String,
    /// The index of this message in the outer `message_choices` array
    pub index: u32,
}

/// A response struct received from the API after requesting a message completion.
#[derive(Debug, Clone, PartialEq)]
pub struct CompletionResponse {
    /// Unique ID of the message, but not in a UUID format.
    pub message_id: Option<String>,
    /// Unix seconds timestamp of when the response was created
    pub created_timestamp: Option<u64>,
    /// The model that was used for this completion
    pub model: String,
    /// Token usage of this completion
    pub usage: TokenUsage,
    /// Message choices for this response, guaranteed to contain at least one message response
    pub message_choices: Vec<MessageChoice>,
}

/// Represents a response from the API.
#[derive(Debug, Clone, PartialEq)]
pub enum ServerResponse {
    /// An error occurred, most likely the model was just overloaded
    Error {
        /// The error that happened
        error: CompletionError,
    },
    /// Completion successfully completed
    Completion(CompletionResponse),
}

/// What was wrong with the configuration: all of these are fatal at startup,
/// never at runtime.
#[derive(Debug, Clone, Copy, PartialEq, Eq, Structural)]
pub enum ConfigError {
    /// There needs to be at least one model.
    NoModels,
    /// There needs to be at least one personality.
    NoPersonalities,
    /// No personality may be named like the reserved form `custom(...)`.
    ReservedPersonalityName,
    /// The accrual rate must be positive, at most one nanodollar per
    /// millisecond, and capped at a thousand banked days.
    InvalidRate,
}

/// The first model of a sequence with the given wire name, if any.
pub open spec fn spec_find_model(models: Seq<GptModel>, name: Seq<char>) -> Option<GptModel>
    decreases models.len(),
{
    if models.len() == 0 {
        None
    } else if models[0].spec_name() == name {
        Some(models[0])
    } else {
        spec_find_model(models.skip(1), name)
    }
}

/// The first preset of a sequence with the given name, if any.
pub open spec fn spec_find_personality(
    presets: Seq<PersonalityPreset>,
    name: Seq<char>,
) -> Option<PersonalityPreset>
    decreases presets.len(),
{
    if presets.len() == 0 {
        None
    } else if presets[0].spec_name() == name {
        Some(presets[0])
    } else {
        spec_find_personality(presets.skip(1), name)
    }
}

/// The first one-off command of a sequence with the given name, if any.
pub open spec fn spec_find_one_off(
    one_offs: Seq<OneOffCommand>,
    name: Seq<char>,
) -> Option<OneOffCommand>
    decreases one_offs.len(),
{
    if one_offs.len() == 0 {
        None
    } else if one_offs[0].spec_name() == name {
        Some(one_offs[0])
    } else {
        spec_find_one_off(one_offs.skip(1), name)
    }
}

/// Finding in a concatenation searches the first sequence, then the second.
proof fn lemma_find_model_concat(a: Seq<GptModel>, b: Seq<GptModel>, name: Seq<char>)
    ensures
        spec_find_model(a + b, name) == if spec_find_model(a, name) is Some {
            spec_find_model(a, name)
        } else {
            spec_find_model(b, name)
        },
    decreases a.len(),
{
    if a.len() == 0 {
        assert(a + b =~= b);
    } else {
        assert((a + b)[0] == a[0]);
        assert((a + b).skip(1) =~= a.skip(1) + b);
        lemma_find_model_concat(a.skip(1), b, name);
    }
}

/// The immutable configuration a running bot consults: accrual rates, the
/// model table, the personality presets, the one-off commands, and the roles
/// allowed to prototype custom personalities. Constructed once, at startup,
/// after validation; never mutated.
#[derive(Debug, Clone)]
pub struct Gpt {
    daily_allowance: u32,
    accrual_millidays: u32,
    models: Vec<GptModel>,
    search_models: Vec<GptModel>,
    personalities: Vec<PersonalityPreset>,
    one_offs: Vec<OneOffCommand>,
    prototyping_roles: Vec<u64>,
}

impl Gpt {
    /// The configuration invariants that `new` validates: at least one model,
    /// at least one personality, no personality named in the reserved custom
    /// form, and a usable accrual rate.
    pub open spec fn wf(&self) -> bool {
        &&& self.spec_models().len() > 0
        &&& self.spec_personalities().len() > 0
        &&& forall|i: int|
            0 <= i < self.spec_personalities().len() ==> !is_custom_wrapped(
                #[trigger] self.spec_personalities()[i].spec_name(),
            )
        &&& valid_rate(self.spec_daily_allowance(), self.spec_accrual_millidays())
    }

    pub closed spec fn spec_daily_allowance(&self) -> u32 {
        self.daily_allowance
    }

    pub closed spec fn spec_accrual_millidays(&self) -> u32 {
        self.accrual_millidays
    }

    pub closed spec fn spec_models(&self) -> Seq<GptModel> {
        self.models@
    }

    pub closed spec fn spec_search_models(&self) -> Seq<GptModel> {
        self.search_models@
    }

    pub closed spec fn spec_personalities(&self) -> Seq<PersonalityPreset> {
        self.personalities@
    }

    pub closed spec fn spec_one_offs(&self) -> Seq<OneOffCommand> {
        self.one_offs@
    }

    pub closed spec fn spec_prototyping_roles(&self) -> Seq<u64> {
        self.prototyping_roles@
    }

    /// Validate and seal a configuration. Every configuration invariant
    /// violation is reported here, before the bot serves traffic; a `Gpt`
    /// value that exists is well formed.
    pub fn new(
        daily_allowance: u32,
        accrual_millidays: u32,
        models: Vec<GptModel>,
        search_models: Vec<GptModel>,
        personalities: Vec<PersonalityPreset>,
        one_offs: Vec<OneOffCommand>,
        prototyping_roles: Vec<u64>,
    ) -> (r: Result<Self, ConfigError>)
        ensures
            match r {
                Ok(gpt) => {
                    &&& gpt.wf()
                    &&& gpt.spec_daily_allowance() == daily_allowance
                    &&& gpt.spec_accrual_millidays() == accrual_millidays
                    &&& gpt.spec_models() == models@
                    &&& gpt.spec_search_models() == search_models@
                    &&& gpt.spec_personalities() == personalities@
                    &&& gpt.spec_one_offs() == one_offs@
                    &&& gpt.spec_prototyping_roles() == prototyping_roles@
                },
                Err(e) => {
                    ||| (e == ConfigError::NoModels && models@.len() == 0)
                    ||| (e == ConfigError::NoPersonalities && personalities@.len() == 0)
                    ||| (e == ConfigError::ReservedPersonalityName && exists|i: int|
                        0 <= i < personalities@.len() && is_custom_wrapped(
                            #[trigger] personalities@[i].spec_name(),
                        ))
                    ||| (e == ConfigError::InvalidRate && !valid_rate(
                        daily_allowance,
                        accrual_millidays,
                    ))
                },
            },
    {
        if models.len() == 0 {
            return Err(ConfigError::NoModels);
        }
        if personalities.len() == 0 {
            return Err(ConfigError::NoPersonalities);
        }
        if daily_allowance < 1 || daily_allowance as u64 > crate::allowances::MILLISECONDS_PER_DAY
            || accrual_millidays < 1 || accrual_millidays > 1_000_000 {
            return Err(ConfigError::InvalidRate);
        }
        let mut i: usize = 0;
        let n = personalities.len();
        while i < n
            invariant
                i <= n,
                n == personalities@.len(),
                forall|k: int|
                    0 <= k < i ==> !is_custom_wrapped(
                        #[trigger] personalities@[k].spec_name(),
                    ),
            decreases n - i,
        {
            if extract_custom(personalities[i].name()).is_some() {
                return Err(ConfigError::ReservedPersonalityName);
            }
            i = i + 1;
        }
        Ok(
            Gpt {
                daily_allowance,
                accrual_millidays,
                models,
                search_models,
                personalities,
                one_offs,
                prototyping_roles,
            },
        )
    }

    pub fn daily_allowance(&self) -> (r: u32)
        ensures
            r == self.spec_daily_allowance(),
    {
        self.daily_allowance
    }

    pub fn accrual_millidays(&self) -> (r: u32)
        ensures
            r == self.spec_accrual_millidays(),
    {
        self.accrual_millidays
    }

    /// The model with this wire name, searched among the regular models and
    /// then the search models.
    pub fn get_model_by_name(&self, name: &str) -> (r: Option<&GptModel>)
        ensures
            match r {
                Some(m) => spec_find_model(
                    self.spec_models() + self.spec_search_models(),
                    name@,
                ) == Some(*m),
                None => spec_find_model(self.spec_models() + self.spec_search_models(), name@)
                    is None,
            },
    {
        proof {
            lemma_find_model_concat(self.spec_models(), self.spec_search_models(), name@);
        }
        if let Some(m) = find_model(&self.models, name) {
            return Some(m);
        }
        find_model(&self.search_models, name)
    }

    /// The first configured model is the default.
    pub fn default_model(&self) -> (r: &GptModel)
        requires
            self.wf(),
        ensures
            *r == self.spec_models()[0],
    {
        &self.models[0]
    }

    /// The available models, excluding search models.
    pub fn models(&self) -> (r: &Vec<GptModel>)
        ensures
            r@ == self.spec_models(),
    {
        &self.models
    }

    /// The personality stored under this name: the reserved `custom(...)`
    /// form decodes to a custom personality; any other name is looked up
    /// among the presets.
    pub fn get_personality_by_name<'a>(&'a self, name: &str) -> (r: Option<Personality<'a>>)
        ensures
            match r {
                Some(p) => match p {
                    Personality::Custom(m) => is_custom_wrapped(name@) && m@ == custom_contents(
                        name@,
                    ),
                    Personality::Preset(preset) => !is_custom_wrapped(name@)
                        && spec_find_personality(self.spec_personalities(), name@) == Some(
                        *preset,
                    ),
                },
                None => !is_custom_wrapped(name@) && spec_find_personality(
                    self.spec_personalities(),
                    name@,
                ) is None,
            },
    {
        if let Some(message) = extract_custom(name) {
            return Some(Personality::Custom(message.to_owned()));
        }
        match find_personality(&self.personalities, name) {
            Some(p) => Some(Personality::Preset(p)),
            None => None,
        }
    }

    /// The first configured personality is the default.
    pub fn default_personality(&self) -> (r: &PersonalityPreset)
        requires
            self.wf(),
        ensures
            *r == self.spec_personalities()[0],
    {
        &self.personalities[0]
    }

    pub fn personalities(&self) -> (r: &Vec<PersonalityPreset>)
        ensures
            r@ == self.spec_personalities(),
    {
        &self.personalities
    }

    pub fn get_one_off_by_name(&self, name: &str) -> (r: Option<&OneOffCommand>)
        ensures
            match r {
                Some(c) => spec_find_one_off(self.spec_one_offs(), name@) == Some(*c),
                None => spec_find_one_off(self.spec_one_offs(), name@) is None,
            },
    {
        find_one_off(&self.one_offs, name)
    }

    pub fn one_offs(&self) -> (r: &Vec<OneOffCommand>)
        ensures
            r@ == self.spec_one_offs(),
    {
        &self.one_offs
    }

    pub fn prototyping_roles(&self) -> (r: &Vec<u64>)
        ensures
            r@ == self.spec_prototyping_roles(),
    {
        &self.prototyping_roles
    }
}

fn find_model<'a>(models: &'a Vec<GptModel>, name: &str) -> (r: Option<&'a GptModel>)
    ensures
        match r {
            Some(m) => spec_find_model(models@, name@) == Some(*m),
            None => spec_find_model(models@, name@) is None,
        },
{
    proof {
        assert(models@.skip(0) =~= models@);
    }
    let len = models.len();
    let mut i: usize = 0;
    while i < len
        invariant
            i <= len,
            len == models@.len(),
            spec_find_model(models@, name@) == spec_find_model(models@.skip(i as int), name@),
        decreases len - i,
    {
        proof {
            assert(models@.skip(i as int)[0] == models@[i as int]);
            assert(models@.skip(i as int).skip(1) =~= models@.skip(i as int + 1));
        }
        if crate::text::str_eq(models[i].name(), name) {
            return Some(&models[i]);
        }
        i = i + 1;
    }
    proof {
        assert(models@.skip(len as int) =~= Seq::<GptModel>::empty());
    }
    None
}

fn find_personality<'a>(presets: &'a Vec<PersonalityPreset>, name: &str) -> (r: Option<
    &'a PersonalityPreset,
>)
    ensures
        match r {
            Some(p) => spec_find_personality(presets@, name@) == Some(*p),
            None => spec_find_personality(presets@, name@) is None,
        },
{
    proof {
        assert(presets@.skip(0) =~= presets@);
    }
    let len = presets.len();
    let mut i: usize = 0;
    while i < len
        invariant
            i <= len,
            len == presets@.len(),
            spec_find_personality(presets@, name@) == spec_find_personality(
                presets@.skip(i as int),
                name@,
            ),
        decreases len - i,
    {
        proof {
            assert(presets@.skip(i as int)[0] == presets@[i as int]);
            assert(presets@.skip(i as int).skip(1) =~= presets@.skip(i as int + 1));
        }
        if crate::text::str_eq(presets[i].name(), name) {
            return Some(&presets[i]);
        }
        i = i + 1;
    }
    proof {
        assert(presets@.skip(len as int) =~= Seq::<PersonalityPreset>::empty());
    }
    None
}

fn find_one_off<'a>(one_offs: &'a Vec<OneOffCommand>, name: &str) -> (r: Option<&'a OneOffCommand>)
    ensures
        match r {
            Some(c) => spec_find_one_off(one_offs@, name@) == Some(*c),
            None => spec_find_one_off(one_offs@, name@) is None,
        },
{
    proof {
        assert(one_offs@.skip(0) =~= one_offs@);
    }
    let len = one_offs.len();
    let mut i: usize = 0;
    while i < len
        invariant
            i <= len,
            len == one_offs@.len(),
            spec_find_one_off(one_offs@, name@) == spec_find_one_off(
                one_offs@.skip(i as int),
                name@,
            ),
        decreases len - i,
    {
        proof {
            assert(one_offs@.skip(i as int)[0] == one_offs@[i as int]);
            assert(one_offs@.skip(i as int).skip(1) =~= one_offs@.skip(i as int + 1));
        }
        if crate::text::str_eq(one_offs[i].name(), name) {
            return Some(&one_offs[i]);
        }
        i = i + 1;
    }
    proof {
        assert(one_offs@.skip(len as int) =~= Seq::<OneOffCommand>::empty());
    }
    None
}

} // verus!
