//! The settings that a `set` command can change, and how each is written.
use vstd::prelude::*;
use vstd::string::StringExecFns;
use crate::decimal::{decimal, push_decimal, push_signed_decimal, signed_decimal};
use crate::text::{switch_str, switch_wire};
use crate::values::{CapitalsMode, NotificationParam, Priority, PunctuationLevel};

verus! {

/// One setting together with the value it is to take.
#[derive(Debug)]
pub enum SetParam<'a> {
    Priority(Priority),
    ClientName { user_name: &'a str, client_name: &'a str, connection_name: &'a str },
    Debug(bool),
    OutputModule(&'a str),
    Language(&'a str),
    SsmlMode(bool),
    Punctuation(PunctuationLevel),
    Spelling(bool),
    Capitals(CapitalsMode),
    VoiceType(&'a str),
    SynthesisVoice(&'a str),
    Rate(i8),
    Pitch(i8),
    Volume(i8),
    PauseContext(usize),
    History(bool),
    Notification(NotificationParam, bool),
}

impl<'a> Clone for SetParam<'a> {
    /// A copy of this setting with the same value.
    fn clone(&self) -> (r: Self)
        ensures
            r == *self,
    {
        match self {
            SetParam::Priority(p) => SetParam::Priority(*p),
            SetParam::ClientName { user_name, client_name, connection_name } => {
                SetParam::ClientName { user_name, client_name, connection_name }
            },
            SetParam::Debug(on) => SetParam::Debug(*on),
            SetParam::OutputModule(name) => SetParam::OutputModule(name),
            SetParam::Language(code) => SetParam::Language(code),
            SetParam::SsmlMode(on) => SetParam::SsmlMode(*on),
            SetParam::Punctuation(level) => SetParam::Punctuation(*level),
            SetParam::Spelling(on) => SetParam::Spelling(*on),
            SetParam::Capitals(mode) => SetParam::Capitals(*mode),
            SetParam::VoiceType(name) => SetParam::VoiceType(name),
            SetParam::SynthesisVoice(name) => SetParam::SynthesisVoice(name),
            SetParam::Rate(rate) => SetParam::Rate(*rate),
            SetParam::Pitch(pitch) => SetParam::Pitch(*pitch),
            SetParam::Volume(volume) => SetParam::Volume(*volume),
            SetParam::PauseContext(size) => SetParam::PauseContext(*size),
            SetParam::History(on) => SetParam::History(*on),
            SetParam::Notification(category, on) => SetParam::Notification(*category, *on),
        }
    }
}

impl<'a> SetParam<'a> {
    /// How this setting is written on the wire: the setting's name, a
    /// space, and the value. Switches are written `on` or `off`, numbers in
    /// decimal, and the three parts of a client name are joined by colons
    /// as they are.
    pub open spec fn wire(self) -> Seq<char> {
        match self {
            SetParam::Priority(p) => "priority "@ + p.wire(),
            SetParam::ClientName { user_name, client_name, connection_name } => {
                "client_name "@ + user_name@ + ":"@ + client_name@ + ":"@ + connection_name@
            },
            SetParam::Debug(on) => "debug "@ + switch_wire(on),
            SetParam::OutputModule(name) => "output_module "@ + name@,
            SetParam::Language(code) => "language "@ + code@,
            SetParam::SsmlMode(on) => "ssml_mode "@ + switch_wire(on),
            SetParam::Punctuation(level) => "punctuation "@ + level.wire(),
            SetParam::Spelling(on) => "spelling "@ + switch_wire(on),
            SetParam::Capitals(mode) => "cap_let_recogn "@ + mode.wire(),
            SetParam::VoiceType(name) => "voice_type "@ + name@,
            SetParam::SynthesisVoice(name) => "synthesis_voice "@ + name@,
            SetParam::Rate(rate) => "rate "@ + signed_decimal(rate as int),
            SetParam::Pitch(pitch) => "pitch "@ + signed_decimal(pitch as int),
            SetParam::Volume(volume) => "volume "@ + signed_decimal(volume as int),
            SetParam::PauseContext(size) => "pause_context "@ + decimal(size as nat),
            SetParam::History(on) => "history "@ + switch_wire(on),
            SetParam::Notification(category, on) => {
                "notification "@ + category.wire() + " "@ + switch_wire(on)
            },
        }
    }

    /// This setting as it is written on the wire.
    pub fn to_string(&self) -> (s: String)
        ensures
            s@ == self.wire(),
    {
        match self {
            SetParam::Priority(p) => named("priority ", p.as_str()),
            SetParam::ClientName { user_name, client_name, connection_name } => {
                let mut s = named("client_name ", user_name);
                s.append(":");
                s.append(client_name);
                s.append(":");
                s.append(connection_name);
                s
            },
            SetParam::Debug(on) => named("debug ", switch_str(*on)),
            SetParam::OutputModule(name) => named("output_module ", name),
            SetParam::Language(code) => named("language ", code),
            SetParam::SsmlMode(on) => named("ssml_mode ", switch_str(*on)),
            SetParam::Punctuation(level) => named("punctuation ", level.as_str()),
            SetParam::Spelling(on) => named("spelling ", switch_str(*on)),
            SetParam::Capitals(mode) => named("cap_let_recogn ", mode.as_str()),
            SetParam::VoiceType(name) => named("voice_type ", name),
            SetParam::SynthesisVoice(name) => named("synthesis_voice ", name),
            SetParam::Rate(rate) => named_signed("rate ", *rate),
            SetParam::Pitch(pitch) => named_signed("pitch ", *pitch),
            SetParam::Volume(volume) => named_signed("volume ", *volume),
            SetParam::PauseContext(size) => {
                let mut s = "pause_context ".to_owned();
                push_decimal(&mut s, *size as u64);
                s
            },
            SetParam::History(on) => named("history ", switch_str(*on)),
            SetParam::Notification(category, on) => {
                let mut s = named("notification ", category.as_str());
                s.append(" ");
                s.append(switch_str(*on));
                s
            },
        }
    }
}

/// A setting's name followed by its value.
fn named(name: &str, value: &str) -> (s: String)
    ensures
        s@ == name@ + value@,
{
    let mut s = name.to_owned();
    s.append(value);
    s
}

/// A setting's name followed by a small signed number in decimal.
fn named_signed(name: &str, value: i8) -> (s: String)
    ensures
        s@ == name@ + signed_decimal(value as int),
{
    let mut s = name.to_owned();
    push_signed_decimal(&mut s, value as i64);
    s
}

} // verus!
