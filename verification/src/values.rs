//! The protocol's value model: client targets and the closed sets of
//! parameter names, levels and modes, each with its one token on the wire.
use vstd::prelude::*;
use std::cmp::Ordering;
use vstd::std_specs::cmp::{PartialOrdSpec, PartialOrdSpecImpl};
use crate::decimal::{
    decimal, is_digit, lemma_decimal_is_numeral, lemma_signed_decimal_injective,
    lemma_signed_decimal_sign, push_signed_decimal, signed_decimal,
};
use crate::text::is_token;

verus! {

/// The client that a control command is aimed at.
#[derive(Clone, Copy, Debug)]
pub enum ClientId {
    /// Every client of the server.
    All,
    /// The client that sends the command.
    Self_,
    /// The client with the given number.
    Id(i32),
}

impl ClientId {
    /// How this target is written on the wire: `all`, `self`, or the
    /// client's number in decimal.
    pub open spec fn wire(self) -> Seq<char> {
        match self {
            ClientId::All => "all"@,
            ClientId::Self_ => "self"@,
            ClientId::Id(id) => signed_decimal(id as int),
        }
    }

    /// This target as it is written on the wire.
    pub fn to_string(&self) -> (s: String)
        ensures
            s@ == self.wire(),
    {
        match self {
            ClientId::All => "all".to_owned(),
            ClientId::Self_ => "self".to_owned(),
            ClientId::Id(id) => {
                let mut s = String::new();
                push_signed_decimal(&mut s, *id as i64);
                assert(s@ =~= signed_decimal(*id as int));
                s
            },
        }
    }

    /// Every target is written as a proper token.
    pub proof fn lemma_wire_is_token(self)
        ensures
            is_token(self.wire()),
    {
        reveal_strlit("all");
        reveal_strlit("self");
        if let ClientId::Id(id) = self {
            lemma_numeral_is_token(id as int);
        }
    }

    /// No two targets are written alike.
    pub proof fn lemma_wire_injective(self, other: Self)
        requires
            self.wire() == other.wire(),
        ensures
            self == other,
    {
        reveal_strlit("all");
        reveal_strlit("self");
        assert("all"@.len() == 3 && "all"@[0] == 'a');
        assert("self"@.len() == 4 && "self"@[0] == 's');
        if let ClientId::Id(a) = self {
            lemma_numeral_is_token(a as int);
            if let ClientId::Id(b) = other {
                lemma_signed_decimal_injective(a as int, b as int);
            }
        }
        if let ClientId::Id(b) = other {
            lemma_numeral_is_token(b as int);
        }
    }
}

/// A signed numeral is a proper token, and it starts with a digit or a minus sign.
pub proof fn lemma_numeral_is_token(i: int)
    ensures
        is_token(signed_decimal(i)),
        signed_decimal(i)[0] == '-' || is_digit(signed_decimal(i)[0]),
{
    lemma_signed_decimal_sign(i);
    let s = signed_decimal(i);
    if i < 0 {
        let m = decimal((-i) as nat);
        lemma_decimal_is_numeral((-i) as nat);
        assert forall|k: int| 0 <= k < s.len() implies !crate::text::is_delimiter(#[trigger] s[k]) by {
            if k > 0 {
                assert(s[k] == m[k - 1]);
                assert(is_digit(m[k - 1]));
            }
        }
    } else {
        lemma_decimal_is_numeral(i as nat);
        assert forall|k: int| 0 <= k < s.len() implies !crate::text::is_delimiter(#[trigger] s[k]) by {
            assert(is_digit(s[k]));
        }
    }
}

/// A setting whose current value the server can be asked for.
#[derive(Clone, Copy, Debug, PartialEq, Eq, Structural)]
pub enum GetParam {
    OutputModule,
    VoiceType,
    Rate,
    Pitch,
    Volume,
}

impl GetParam {
    /// The token of this parameter on the wire.
    pub open spec fn wire(self) -> Seq<char> {
        match self {
            GetParam::OutputModule => "output_module"@,
            GetParam::VoiceType => "voice_type"@,
            GetParam::Rate => "rate"@,
            GetParam::Pitch => "pitch"@,
            GetParam::Volume => "volume"@,
        }
    }

    /// The token of this parameter, as a string slice.
    pub fn as_str(&self) -> (s: &'static str)
        ensures
            s@ == self.wire(),
    {
        match self {
            GetParam::OutputModule => "output_module",
            GetParam::VoiceType => "voice_type",
            GetParam::Rate => "rate",
            GetParam::Pitch => "pitch",
            GetParam::Volume => "volume",
        }
    }

    /// The token of this parameter, as an owned string.
    pub fn to_string(&self) -> (s: String)
        ensures
            s@ == self.wire(),
    {
        self.as_str().to_owned()
    }

    /// Every parameter is written as a proper token.
    pub proof fn lemma_wire_is_token(self)
        ensures
            is_token(self.wire()),
    {
        reveal_strlit("output_module");
        reveal_strlit("voice_type");
        reveal_strlit("rate");
        reveal_strlit("pitch");
        reveal_strlit("volume");
    }

    /// No two parameters share a token.
    pub proof fn lemma_wire_injective(self, other: Self)
        requires
            self.wire() == other.wire(),
        ensures
            self == other,
    {
        reveal_strlit("output_module");
        reveal_strlit("voice_type");
        reveal_strlit("rate");
        reveal_strlit("pitch");
        reveal_strlit("volume");
        assert("output_module"@.len() == 13);
        assert("voice_type"@.len() == 10);
        assert("rate"@.len() == 4);
        assert("pitch"@.len() == 5);
        assert("volume"@.len() == 6);
    }
}

/// A collection that the server can be asked to list.
#[derive(Clone, Copy, Debug, PartialEq, Eq, Structural)]
pub enum ListParam {
    OutputModules,
    Voices,
    SynthesisVoices,
}

impl ListParam {
    /// The token of this collection on the wire.
    pub open spec fn wire(self) -> Seq<char> {
        match self {
            ListParam::OutputModules => "output_modules"@,
            ListParam::Voices => "voices"@,
            ListParam::SynthesisVoices => "synthesis_voices"@,
        }
    }

    /// The token of this collection, as a string slice.
    pub fn as_str(&self) -> (s: &'static str)
        ensures
            s@ == self.wire(),
    {
        match self {
            ListParam::OutputModules => "output_modules",
            ListParam::Voices => "voices",
            ListParam::SynthesisVoices => "synthesis_voices",
        }
    }

    /// The token of this collection, as an owned string.
    pub fn to_string(&self) -> (s: String)
        ensures
            s@ == self.wire(),
    {
        self.as_str().to_owned()
    }

    /// Every collection is written as a proper token.
    pub proof fn lemma_wire_is_token(self)
        ensures
            is_token(self.wire()),
    {
        reveal_strlit("output_modules");
        reveal_strlit("voices");
        reveal_strlit("synthesis_voices");
    }

    /// No two collections share a token.
    pub proof fn lemma_wire_injective(self, other: Self)
        requires
            self.wire() == other.wire(),
        ensures
            self == other,
    {
        reveal_strlit("output_modules");
        reveal_strlit("voices");
        reveal_strlit("synthesis_voices");
        assert("output_modules"@.len() == 14);
        assert("voices"@.len() == 6);
        assert("synthesis_voices"@.len() == 16);
    }
}

/// A category of events that the server can report.
#[derive(Clone, Copy, Debug, PartialEq, Eq, Structural)]
pub enum NotificationParam {
    All,
    Begin,
    End,
    Pause,
    Resume,
    IndexMark,
}

impl NotificationParam {
    /// The token of this category on the wire.
    pub open spec fn wire(self) -> Seq<char> {
        match self {
            NotificationParam::All => "all"@,
            NotificationParam::Begin => "begin"@,
            NotificationParam::End => "end"@,
            NotificationParam::Pause => "pause"@,
            NotificationParam::Resume => "resume"@,
            NotificationParam::IndexMark => "index_mark"@,
        }
    }

    /// The token of this category, as a string slice.
    pub fn as_str(&self) -> (s: &'static str)
        ensures
            s@ == self.wire(),
    {
        match self {
            NotificationParam::All => "all",
            NotificationParam::Begin => "begin",
            NotificationParam::End => "end",
            NotificationParam::Pause => "pause",
            NotificationParam::Resume => "resume",
            NotificationParam::IndexMark => "index_mark",
        }
    }

    /// The token of this category, as an owned string.
    pub fn to_string(&self) -> (s: String)
        ensures
            s@ == self.wire(),
    {
        self.as_str().to_owned()
    }

    /// Every category is written as a proper token.
    pub proof fn lemma_wire_is_token(self)
        ensures
            is_token(self.wire()),
    {
        reveal_strlit("all");
        reveal_strlit("begin");
        reveal_strlit("end");
        reveal_strlit("pause");
        reveal_strlit("resume");
        reveal_strlit("index_mark");
    }

    /// No two categories share a token.
    pub proof fn lemma_wire_injective(self, other: Self)
        requires
            self.wire() == other.wire(),
        ensures
            self == other,
    {
        reveal_strlit("all");
        reveal_strlit("begin");
        reveal_strlit("end");
        reveal_strlit("pause");
        reveal_strlit("resume");
        reveal_strlit("index_mark");
        assert("all"@.len() == 3 && "all"@[0] == 'a');
        assert("begin"@.len() == 5 && "begin"@[0] == 'b');
        assert("end"@.len() == 3 && "end"@[0] == 'e');
        assert("pause"@.len() == 5 && "pause"@[0] == 'p');
        assert("resume"@.len() == 6);
        assert("index_mark"@.len() == 10);
    }
}

/// How urgent a message is, from the least urgent to the most.
#[derive(Clone, Copy, Debug, PartialEq, Eq, Ord, Structural)]
pub enum Priority {
    Progress,
    Notification,
    Text,
    Message,
    Important,
}

impl Priority {
    /// The token of this priority on the wire.
    pub open spec fn wire(self) -> Seq<char> {
        match self {
            Priority::Progress => "progress"@,
            Priority::Notification => "notification"@,
            Priority::Text => "text"@,
            Priority::Message => "message"@,
            Priority::Important => "important"@,
        }
    }

    /// The place of this priority in the order of its kind, counted from zero.
    pub open spec fn rank(self) -> nat {
        match self {
            Priority::Progress => 0,
            Priority::Notification => 1,
            Priority::Text => 2,
            Priority::Message => 3,
            Priority::Important => 4,
        }
    }

    /// The place of this priority in the order of its kind, counted from zero.
    pub fn level(&self) -> (r: u8)
        ensures
            r == self.rank(),
    {
        match self {
            Priority::Progress => 0,
            Priority::Notification => 1,
            Priority::Text => 2,
            Priority::Message => 3,
            Priority::Important => 4,
        }
    }

    /// The token of this priority, as a string slice.
    pub fn as_str(&self) -> (s: &'static str)
        ensures
            s@ == self.wire(),
    {
        match self {
            Priority::Progress => "progress",
            Priority::Notification => "notification",
            Priority::Text => "text",
            Priority::Message => "message",
            Priority::Important => "important",
        }
    }

    /// The token of this priority, as an owned string.
    pub fn to_string(&self) -> (s: String)
        ensures
            s@ == self.wire(),
    {
        self.as_str().to_owned()
    }

    /// Every priority is written as a proper token.
    pub proof fn lemma_wire_is_token(self)
        ensures
            is_token(self.wire()),
    {
        reveal_strlit("progress");
        reveal_strlit("notification");
        reveal_strlit("text");
        reveal_strlit("message");
        reveal_strlit("important");
    }

    /// No two priorities share a token.
    pub proof fn lemma_wire_injective(self, other: Self)
        requires
            self.wire() == other.wire(),
        ensures
            self == other,
    {
        reveal_strlit("progress");
        reveal_strlit("notification");
        reveal_strlit("text");
        reveal_strlit("message");
        reveal_strlit("important");
        assert("progress"@.len() == 8);
        assert("notification"@.len() == 12);
        assert("text"@.len() == 4);
        assert("message"@.len() == 7);
        assert("important"@.len() == 9);
    }
}

impl Priority {
    /// Two priorities of the same rank are the same priority: the order is
    /// total, and it calls two priorities equal only when they are equal.
    pub proof fn lemma_rank_injective(self, other: Self)
        ensures
            self.rank() == other.rank() <==> self == other,
            PartialOrdSpec::partial_cmp_spec(&self, &other) == Some(Ordering::Equal) <==> self
                == other,
            PartialOrdSpec::partial_cmp_spec(&self, &other) == Some(Ordering::Less)
                <==> PartialOrdSpec::partial_cmp_spec(&other, &self) == Some(Ordering::Greater),
    {
    }
}

impl PartialOrdSpecImpl for Priority {
    open spec fn obeys_partial_cmp_spec() -> bool {
        true
    }

    open spec fn partial_cmp_spec(&self, other: &Self) -> Option<Ordering> {
        if self.rank() < other.rank() {
            Some(Ordering::Less)
        } else if self.rank() > other.rank() {
            Some(Ordering::Greater)
        } else {
            Some(Ordering::Equal)
        }
    }
}

impl PartialOrd for Priority {
    /// Compares two priorities by their rank.
    fn partial_cmp(&self, other: &Self) -> (r: Option<Ordering>) {
        let a: u8 = self.level();
        let b: u8 = other.level();
        if a < b {
            Some(Ordering::Less)
        } else if a > b {
            Some(Ordering::Greater)
        } else {
            Some(Ordering::Equal)
        }
    }
}

/// How much punctuation is spoken, from nothing to everything.
#[derive(Clone, Copy, Debug, PartialEq, Eq, Ord, Structural)]
pub enum PunctuationLevel {
    None_,
    Some_,
    Most,
    All,
}

impl PunctuationLevel {
    /// The token of this level on the wire.
    pub open spec fn wire(self) -> Seq<char> {
        match self {
            PunctuationLevel::None_ => "none"@,
            PunctuationLevel::Some_ => "some"@,
            PunctuationLevel::Most => "most"@,
            PunctuationLevel::All => "all"@,
        }
    }

    /// The place of this level in the order of its kind, counted from zero.
    pub open spec fn rank(self) -> nat {
        match self {
            PunctuationLevel::None_ => 0,
            PunctuationLevel::Some_ => 1,
            PunctuationLevel::Most => 2,
            PunctuationLevel::All => 3,
        }
    }

    /// The place of this level in the order of its kind, counted from zero.
    pub fn level(&self) -> (r: u8)
        ensures
            r == self.rank(),
    {
        match self {
            PunctuationLevel::None_ => 0,
            PunctuationLevel::Some_ => 1,
            PunctuationLevel::Most => 2,
            PunctuationLevel::All => 3,
        }
    }

    /// The token of this level, as a string slice.
    pub fn as_str(&self) -> (s: &'static str)
        ensures
            s@ == self.wire(),
    {
        match self {
            PunctuationLevel::None_ => "none",
            PunctuationLevel::Some_ => "some",
            PunctuationLevel::Most => "most",
            PunctuationLevel::All => "all",
        }
    }

    /// The token of this level, as an owned string.
    pub fn to_string(&self) -> (s: String)
        ensures
            s@ == self.wire(),
    {
        self.as_str().to_owned()
    }

    /// Every level is written as a proper token.
    pub proof fn lemma_wire_is_token(self)
        ensures
            is_token(self.wire()),
    {
        reveal_strlit("none");
        reveal_strlit("some");
        reveal_strlit("most");
        reveal_strlit("all");
    }

    /// No two levels share a token.
    pub proof fn lemma_wire_injective(self, other: Self)
        requires
            self.wire() == other.wire(),
        ensures
            self == other,
    {
        reveal_strlit("none");
        reveal_strlit("some");
        reveal_strlit("most");
        reveal_strlit("all");
        assert("none"@.len() == 4 && "none"@[0] == 'n');
        assert("some"@.len() == 4 && "some"@[0] == 's');
        assert("most"@.len() == 4 && "most"@[0] == 'm');
        assert("all"@.len() == 3);
    }
}

impl PunctuationLevel {
    /// Two levels of the same rank are the same level: the order is
    /// total, and it calls two levels equal only when they are equal.
    pub proof fn lemma_rank_injective(self, other: Self)
        ensures
            self.rank() == other.rank() <==> self == other,
            PartialOrdSpec::partial_cmp_spec(&self, &other) == Some(Ordering::Equal) <==> self
                == other,
            PartialOrdSpec::partial_cmp_spec(&self, &other) == Some(Ordering::Less)
                <==> PartialOrdSpec::partial_cmp_spec(&other, &self) == Some(Ordering::Greater),
    {
    }
}

impl PartialOrdSpecImpl for PunctuationLevel {
    open spec fn obeys_partial_cmp_spec() -> bool {
        true
    }

    open spec fn partial_cmp_spec(&self, other: &Self) -> Option<Ordering> {
        if self.rank() < other.rank() {
            Some(Ordering::Less)
        } else if self.rank() > other.rank() {
            Some(Ordering::Greater)
        } else {
            Some(Ordering::Equal)
        }
    }
}

impl PartialOrd for PunctuationLevel {
    /// Compares two levels by their rank.
    fn partial_cmp(&self, other: &Self) -> (r: Option<Ordering>) {
        let a: u8 = self.level();
        let b: u8 = other.level();
        if a < b {
            Some(Ordering::Less)
        } else if a > b {
            Some(Ordering::Greater)
        } else {
            Some(Ordering::Equal)
        }
    }
}

/// How capital letters are announced.
#[derive(Clone, Copy, Debug, PartialEq, Eq, Structural)]
pub enum CapitalsMode {
    None_,
    Icon,
    Spell,
}

impl CapitalsMode {
    /// The token of this mode on the wire.
    pub open spec fn wire(self) -> Seq<char> {
        match self {
            CapitalsMode::None_ => "none"@,
            CapitalsMode::Icon => "icon"@,
            CapitalsMode::Spell => "spell"@,
        }
    }

    /// The token of this mode, as a string slice.
    pub fn as_str(&self) -> (s: &'static str)
        ensures
            s@ == self.wire(),
    {
        match self {
            CapitalsMode::None_ => "none",
            CapitalsMode::Icon => "icon",
            CapitalsMode::Spell => "spell",
        }
    }

    /// The token of this mode, as an owned string.
    pub fn to_string(&self) -> (s: String)
        ensures
            s@ == self.wire(),
    {
        self.as_str().to_owned()
    }

    /// Every mode is written as a proper token.
    pub proof fn lemma_wire_is_token(self)
        ensures
            is_token(self.wire()),
    {
        reveal_strlit("none");
        reveal_strlit("icon");
        reveal_strlit("spell");
    }

    /// No two modes share a token.
    pub proof fn lemma_wire_injective(self, other: Self)
        requires
            self.wire() == other.wire(),
        ensures
            self == other,
    {
        reveal_strlit("none");
        reveal_strlit("icon");
        reveal_strlit("spell");
        assert("none"@.len() == 4 && "none"@[0] == 'n');
        assert("icon"@.len() == 4 && "icon"@[0] == 'i');
        assert("spell"@.len() == 5);
    }
}

} // verus!
