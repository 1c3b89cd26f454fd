//! A one-off command: a configured slash-style command that sends a single
//! prompt under a fixed system message, outside any conversation thread.

use vstd::prelude::*;

verus! {

/// A configured one-off command.
#[derive(Debug, Clone)]
pub struct OneOffCommand {
    name: String,
    emoji: String,
    description: String,
    argument: String,
    argument_description: String,
    system_message: String,
    model_override: Option<String>,
}

impl OneOffCommand {
    pub fn new(
        name: String,
        emoji: String,
        description: String,
        argument: String,
        argument_description: String,
        system_message: String,
        model_override: Option<String>,
    ) -> (r: Self)
        ensures
            r.spec_name() == name@,
            r.spec_emoji() == emoji@,
            r.spec_description() == description@,
            r.spec_argument() == argument@,
            r.spec_argument_description() == argument_description@,
            r.spec_system_message() == system_message@,
            r.spec_model_override() == match model_override {
                Some(m) => Some(m@),
                None => None,
            },
    {
        OneOffCommand {
            name,
            emoji,
            description,
            argument,
            argument_description,
            system_message,
            model_override,
        }
    }

    pub closed spec fn spec_name(&self) -> Seq<char> {
        self.name@
    }

    pub closed spec fn spec_emoji(&self) -> Seq<char> {
        self.emoji@
    }

    pub closed spec fn spec_description(&self) -> Seq<char> {
        self.description@
    }

    pub closed spec fn spec_argument(&self) -> Seq<char> {
        self.argument@
    }

    pub closed spec fn spec_argument_description(&self) -> Seq<char> {
        self.argument_description@
    }

    pub closed spec fn spec_system_message(&self) -> Seq<char> {
        self.system_message@
    }

    pub closed spec fn spec_model_override(&self) -> Option<Seq<char>> {
        match self.model_override {
            Some(m) => Some(m@),
            None => None,
        }
    }

    pub fn name(&self) -> (r: &str)
        ensures
            r@ == self.spec_name(),
    {
        self.name.as_str()
    }

    pub fn emoji(&self) -> (r: &str)
        ensures
            r@ == self.spec_emoji(),
    {
        self.emoji.as_str()
    }

    pub fn description(&self) -> (r: &str)
        ensures
            r@ == self.spec_description(),
    {
        self.description.as_str()
    }

    pub fn argument(&self) -> (r: &str)
        ensures
            r@ == self.spec_argument(),
    {
        self.argument.as_str()
    }

    pub fn argument_description(&self) -> (r: &str)
        ensures
            r@ == self.spec_argument_description(),
    {
        self.argument_description.as_str()
    }

    pub fn system_message(&self) -> (r: &str)
        ensures
            r@ == self.spec_system_message(),
    {
        self.system_message.as_str()
    }

    pub fn model_override(&self) -> (r: Option<&str>)
        ensures
            match r {
                Some(m) => self.spec_model_override() == Some(m@),
                None => self.spec_model_override() is None,
            },
    {
        match &self.model_override {
            Some(m) => Some(m.as_str()),
            None => None,
        }
    }
}

} // verus!
