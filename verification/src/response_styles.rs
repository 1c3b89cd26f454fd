//! Personalities: named presets from configuration, plus a free-form custom
//! system message. A custom message is stored under a reserved textual
//! wrapper, `custom(...)`, applied and removed in exactly one place (here),
//! so it can never be confused with a preset name on read-back.

use vstd::prelude::*;

use crate::text::{str_ends_with, str_starts_with};

verus! {

/// A preset personality loaded from configuration.
#[derive(Debug, Clone)]
pub struct PersonalityPreset {
    name: String,
    emoji: String,
    system_message: String,
}

impl PersonalityPreset {
    pub fn new(name: String, emoji: String, system_message: String) -> (r: Self)
        ensures
            r.spec_name() == name@,
            r.spec_emoji() == emoji@,
            r.spec_system_message() == system_message@,
    {
        PersonalityPreset { name, emoji, system_message }
    }

    pub closed spec fn spec_name(&self) -> Seq<char> {
        self.name@
    }

    pub closed spec fn spec_emoji(&self) -> Seq<char> {
        self.emoji@
    }

    pub closed spec fn spec_system_message(&self) -> Seq<char> {
        self.system_message@
    }

    /// Get a descriptor for the personality for use in messages that say what is set.
    pub fn name(&self) -> (r: &str)
        ensures
            r@ == self.spec_name(),
    {
        self.name.as_str()
    }

    /// Get the emoji that the bot will use to convey the used preset.
    pub fn emoji(&self) -> (r: &str)
        ensures
            r@ == self.spec_emoji(),
    {
        self.emoji.as_str()
    }

    /// Get the system message; the message that is meant to instruct the model about what to do.
    pub fn system_message(&self) -> (r: &str)
        ensures
            r@ == self.spec_system_message(),
    {
        self.system_message.as_str()
    }
}

/// The effective personality of a thread or a user: a configured preset, or
/// an arbitrary user-supplied system message.
#[derive(Debug, Clone)]
pub enum Personality<'p> {
    Preset(&'p PersonalityPreset),
    Custom(String),
}

impl<'p> Personality<'p> {
    pub open spec fn spec_name(&self) -> Seq<char> {
        match self {
            Personality::Preset(p) => p.spec_name(),
            Personality::Custom(_) => "custom"@,
        }
    }

    pub open spec fn spec_database_name(&self) -> Seq<char> {
        match self {
            Personality::Preset(p) => p.spec_name(),
            Personality::Custom(message) => wrapped_custom(message@),
        }
    }

    pub open spec fn spec_emoji(&self) -> Seq<char> {
        match self {
            Personality::Preset(p) => p.spec_emoji(),
            Personality::Custom(_) => "\u{1f4dd}"@,
        }
    }

    pub open spec fn spec_system_message(&self) -> Seq<char> {
        match self {
            Personality::Preset(p) => p.spec_system_message(),
            Personality::Custom(m) => m@,
        }
    }

    /// Get a descriptor for the personality for use in messages that say what is set.
    pub fn name(&self) -> (r: &str)
        ensures
            r@ == self.spec_name(),
    {
        match self {
            Personality::Preset(p) => p.name(),
            Personality::Custom(_) => "custom",
        }
    }

    /// The string identifying this personality in the database.
    pub fn database_name(&self) -> (r: String)
        ensures
            r@ == self.spec_database_name(),
    {
        match self {
            Personality::Preset(p) => {
                let n: &str = p.name();
                n.to_owned()
            },
            Personality::Custom(message) => wrap_custom(message.as_str()),
        }
    }

    /// Get the emoji that the bot will use to convey the used personality.
    pub fn emoji(&self) -> (r: &str)
        ensures
            r@ == self.spec_emoji(),
    {
        match self {
            Personality::Preset(p) => p.emoji(),
            Personality::Custom(_) => "\u{1f4dd}",
        }
    }

    /// Get the system message; the message that is meant to instruct the model about what to do.
    pub fn system_message(&self) -> (r: &str)
        ensures
            r@ == self.spec_system_message(),
    {
        match self {
            Personality::Preset(p) => p.system_message(),
            Personality::Custom(m) => m.as_str(),
        }
    }
}

/// The reserved database form of a custom system message `m`: `custom(m)`.
pub open spec fn wrapped_custom(message: Seq<char>) -> Seq<char> {
    "custom("@ + message + ")"@
}

/// Whether a stored string is in the reserved form `custom(...)`.
pub open spec fn is_custom_wrapped(s: Seq<char>) -> bool {
    &&& s.len() >= "custom("@.len() + ")"@.len()
    &&& s.subrange(0, "custom("@.len() as int) == "custom("@
    &&& s.subrange(s.len() - ")"@.len(), s.len() as int) == ")"@
}

/// The system message inside a stored string of the reserved form.
pub open spec fn custom_contents(s: Seq<char>) -> Seq<char> {
    s.subrange("custom("@.len() as int, s.len() - ")"@.len())
}

/// Makes `"whatever"` into `"custom(whatever)"`.
///
/// This and `extract_custom` are the only two places that know the reserved
/// database format for storing a custom system message.
pub fn wrap_custom(message: &str) -> (r: String)
    ensures
        r@ == wrapped_custom(message@),
{
    let mut wrapped = String::from_str("custom(");
    wrapped.append(message);
    wrapped.append(")");
    wrapped
}

/// If the string is like `"custom(whatever)"`, returns `Some("whatever")`, otherwise `None`.
///
/// This is the database format for storing a custom system message.
pub fn extract_custom(string: &str) -> (r: Option<&str>)
    ensures
        match r {
            Some(inner) => is_custom_wrapped(string@) && inner@ == custom_contents(string@),
            None => !is_custom_wrapped(string@),
        },
{
    proof {
        reveal_strlit("custom(");
        reveal_strlit(")");
    }
    let len = string.unicode_len();
    if len >= 8 && str_starts_with(string, "custom(") && str_ends_with(string, ")") {
        Some(string.substring_char(7, len - 1))
    } else {
        None
    }
}

/// The reserved wrapper round-trips: the stored form of any custom system
/// message decodes back to the identical text, and the stored form can never
/// collide with a string that is not itself in the reserved form (such as a
/// configuration-checked preset name).
pub proof fn lemma_custom_round_trip(message: Seq<char>)
    ensures
        is_custom_wrapped(wrapped_custom(message)),
        custom_contents(wrapped_custom(message)) == message,
        forall|other: Seq<char>| !is_custom_wrapped(other) ==> wrapped_custom(message) != other,
{
    reveal_strlit("custom(");
    reveal_strlit(")");
    let w = wrapped_custom(message);
    assert(w.subrange(0, 7) =~= "custom("@);
    assert(w.subrange(w.len() - 1, w.len() as int) =~= ")"@);
    assert(custom_contents(w) =~= message);
}

} // verus!
