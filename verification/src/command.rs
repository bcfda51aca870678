//! The commands of the protocol and the exact text of each on the wire.
use vstd::prelude::*;
use vstd::string::StringExecFns;
use crate::set_param::SetParam;
use crate::speech::{
    after_crlf, ends_with_crlf, escaped, is_dot_safe, lemma_escaped_ends,
    lemma_escaped_is_dot_safe, Speech,
};
use crate::values::{ClientId, GetParam};

verus! {

/// One command, with what it needs to be sent.
#[derive(Debug)]
pub enum Command<'a> {
    /// Speak the text.
    Speak(Speech<'a>),
    /// Speak a single character.
    Char(char),
    /// Play the sound icon of the given name.
    SoundIcon(&'a str),
    /// Stop what the target is speaking.
    Stop(ClientId),
    /// Stop the target and discard what it has queued.
    Cancel(ClientId),
    /// Pause the target.
    Pause(ClientId),
    /// Let the target go on after a pause.
    Resume(ClientId),
    /// Change a setting of the target.
    Set_ { client: ClientId, param: SetParam<'a> },
    /// Ask for the value of a setting.
    Get(GetParam),
}

impl<'a> Clone for Command<'a> {
    /// A copy of this command, written on the wire as this one is.
    fn clone(&self) -> (r: Self)
        ensures
            r == *self,
    {
        match self {
            Command::Speak(text) => Command::Speak(text.clone()),
            Command::Char(c) => Command::Char(*c),
            Command::SoundIcon(name) => Command::SoundIcon(name),
            Command::Stop(target) => Command::Stop(*target),
            Command::Cancel(target) => Command::Cancel(*target),
            Command::Pause(target) => Command::Pause(*target),
            Command::Resume(target) => Command::Resume(*target),
            Command::Set_ { client, param } => Command::Set_ {
                client: *client,
                param: param.clone(),
            },
            Command::Get(param) => Command::Get(*param),
        }
    }
}

/// The text of a `speak` command with the given payload: the command word
/// on a line of its own, the payload, and the closing line of a single dot.
pub open spec fn speak_wire(payload: Seq<char>) -> Seq<char> {
    "speak\r\n"@ + payload + "\r\n.\r\n"@
}

/// The text of a command made of a word and the target it is aimed at.
pub open spec fn target_wire(word: Seq<char>, target: ClientId) -> Seq<char> {
    word + target.wire() + "\r\n"@
}

impl<'a> Command<'a> {
    /// The exact text of this command on the wire. Every command ends with
    /// CR LF. The space character is sent by its name, as it could not be
    /// told from the space that separates the fields.
    pub open spec fn wire(self) -> Seq<char> {
        match self {
            Command::Speak(text) => speak_wire(text@),
            Command::Char(c) => if c == ' ' {
                "char space\r\n"@
            } else {
                "char "@.push(c) + "\r\n"@
            },
            Command::SoundIcon(name) => "sound_icon "@ + name@ + "\r\n"@,
            Command::Stop(target) => target_wire("stop "@, target),
            Command::Cancel(target) => target_wire("cancel "@, target),
            Command::Pause(target) => target_wire("pause "@, target),
            Command::Resume(target) => target_wire("resume "@, target),
            Command::Set_ { client, param } => "set "@ + client.wire() + " "@ + param.wire()
                + "\r\n"@,
            Command::Get(param) => "get "@ + param.wire() + "\r\n"@,
        }
    }

    /// This command as it is written on the wire.
    pub fn to_string(&self) -> (s: String)
        ensures
            s@ == self.wire(),
    {
        match self {
            Command::Speak(text) => {
                let mut s = "speak\r\n".to_owned();
                s.append(text.as_str());
                s.append("\r\n.\r\n");
                s
            },
            Command::Char(c) => {
                if *c == ' ' {
                    "char space\r\n".to_owned()
                } else {
                    let mut s = "char ".to_owned();
                    s.push(*c);
                    s.append("\r\n");
                    s
                }
            },
            Command::SoundIcon(name) => {
                let mut s = "sound_icon ".to_owned();
                s.append(name);
                s.append("\r\n");
                s
            },
            Command::Stop(target) => aimed("stop ", target),
            Command::Cancel(target) => aimed("cancel ", target),
            Command::Pause(target) => aimed("pause ", target),
            Command::Resume(target) => aimed("resume ", target),
            Command::Set_ { client, param } => {
                let mut s = "set ".to_owned();
                s.append(client.to_string().as_str());
                s.append(" ");
                s.append(param.to_string().as_str());
                s.append("\r\n");
                s
            },
            Command::Get(param) => {
                let mut s = "get ".to_owned();
                s.append(param.as_str());
                s.append("\r\n");
                s
            },
        }
    }
}

/// A command word, the target it is aimed at, and the end of the line.
fn aimed(word: &str, target: &ClientId) -> (s: String)
    ensures
        s@ == target_wire(word@, *target),
{
    let mut s = word.to_owned();
    s.append(target.to_string().as_str());
    s.append("\r\n");
    s
}

/// Whether the five characters from position `i` of `s` are the line that
/// closes the text of a `speak` command: CR LF, a dot, CR LF.
pub open spec fn closes_at(s: Seq<char>, i: int) -> bool {
    &&& 0 <= i
    &&& i + 5 <= s.len()
    &&& s[i] == '\r'
    &&& s[i + 1] == '\n'
    &&& s[i + 2] == '.'
    &&& s[i + 3] == '\r'
    &&& s[i + 4] == '\n'
}

impl<'a> Command<'a> {
    /// Every command ends with CR LF.
    pub proof fn lemma_wire_ends_with_crlf(self)
        ensures
            ends_with_crlf(self.wire()),
    {
        reveal_strlit("\r\n");
        reveal_strlit("\r\n.\r\n");
        reveal_strlit("char space\r\n");
    }
}

/// In a `speak` command whose payload is safe and does not begin with a
/// dot, the closing line stands at the very end and nowhere before it: the
/// receiving side cannot take a part of the payload for the end of the text.
pub proof fn lemma_speak_closes_once(payload: Seq<char>)
    requires
        is_dot_safe(payload),
        payload.len() == 0 || payload[0] != '.',
    ensures
        forall|i: int| closes_at(speak_wire(payload), i) <==> i == speak_wire(payload).len() - 5,
{
    reveal_strlit("speak\r\n");
    reveal_strlit("\r\n.\r\n");
    let head = "speak\r\n"@;
    let tail = "\r\n.\r\n"@;
    let w = speak_wire(payload);
    let n = payload.len() as int;
    assert(head.len() == 7 && tail.len() == 5);
    assert(w.len() == n + 12);
    assert forall|k: int| 0 <= k < w.len() implies w[k] == (if k < 7 {
        head[k]
    } else if k < 7 + n {
        payload[k - 7]
    } else {
        tail[k - 7 - n]
    }) by {}
    assert forall|i: int| closes_at(w, i) implies i == w.len() - 5 by {
        let j = i + 2 - 7;
        if 1 < j < n {
            assert(w[i] == payload[j - 2] && w[i + 1] == payload[j - 1]);
            assert(after_crlf(payload, j) && payload[j] == '.');
            assert(w[i + 3] == payload[j + 1]);
        }
    }
    assert(closes_at(w, w.len() - 5));
}

/// The same for text made safe by doubling its dots: if the text does not
/// begin with a dot, the `speak` command that carries it closes at its very
/// end and nowhere before.
pub proof fn lemma_speak_escaped_closes_once(s: Seq<char>)
    requires
        s.len() == 0 || s[0] != '.',
    ensures
        forall|i: int|
            closes_at(speak_wire(escaped(s)), i) <==> i == speak_wire(escaped(s)).len() - 5,
{
    lemma_escaped_is_dot_safe(s);
    lemma_escaped_ends(s);
    lemma_speak_closes_once(escaped(s));
}

} // verus!
