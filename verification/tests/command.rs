use ssip::{ClientId, Command, GetParam, Priority, SetParam, Speech};

#[test]
fn test_speak_display() {
    let cmd = Command::Speak(Speech::from("Hello, world!"));
    assert_eq!(cmd.to_string(), "speak\r\nHello, world!\r\n.\r\n");
}

#[test]
fn test_char_display() {
    let cmd = Command::Char('A');
    assert_eq!(cmd.to_string(), "char A\r\n");
    let cmd = Command::Char(' ');
    assert_eq!(cmd.to_string(), "char space\r\n");
}

#[test]
fn test_sound_icon_display() {
    let cmd = Command::SoundIcon("beep");
    assert_eq!(cmd.to_string(), "sound_icon beep\r\n");
}

#[test]
fn test_stop_display() {
    let cmd = Command::Stop(ClientId::All);
    assert_eq!(cmd.to_string(), "stop all\r\n");
    let cmd = Command::Stop(ClientId::Self_);
    assert_eq!(cmd.to_string(), "stop self\r\n");
    let cmd = Command::Stop(ClientId::Id(123));
    assert_eq!(cmd.to_string(), "stop 123\r\n");
}

#[test]
fn test_cancel_display() {
    let cmd = Command::Cancel(ClientId::All);
    assert_eq!(cmd.to_string(), "cancel all\r\n");
    let cmd = Command::Cancel(ClientId::Self_);
    assert_eq!(cmd.to_string(), "cancel self\r\n");
    let cmd = Command::Cancel(ClientId::Id(123));
    assert_eq!(cmd.to_string(), "cancel 123\r\n");
}

#[test]
fn test_pause_display() {
    let cmd = Command::Pause(ClientId::All);
    assert_eq!(cmd.to_string(), "pause all\r\n");
    let cmd = Command::Pause(ClientId::Self_);
    assert_eq!(cmd.to_string(), "pause self\r\n");
    let cmd = Command::Pause(ClientId::Id(123));
    assert_eq!(cmd.to_string(), "pause 123\r\n");
}

#[test]
fn test_resume_display() {
    let cmd = Command::Resume(ClientId::All);
    assert_eq!(cmd.to_string(), "resume all\r\n");
    let cmd = Command::Resume(ClientId::Self_);
    assert_eq!(cmd.to_string(), "resume self\r\n");
    let cmd = Command::Resume(ClientId::Id(123));
    assert_eq!(cmd.to_string(), "resume 123\r\n");
}

#[test]
fn test_set() {
    // The settings themselves are covered one by one with `SetParam`.
    let cmd = Command::Set_ {
        client: ClientId::Self_,
        param: SetParam::Priority(Priority::Message),
    };
    assert_eq!(cmd.to_string(), "set self priority message\r\n");
}

#[test]
fn test_get() {
    let cmd = Command::Get(GetParam::OutputModule);
    assert_eq!(cmd.to_string(), "get output_module\r\n");
}

#[test]
fn set_important_priority_for_self() {
    let cmd = Command::Set_ {
        client: ClientId::Self_,
        param: SetParam::Priority(Priority::Important),
    };
    assert_eq!(cmd.to_string(), "set self priority important\r\n");
}

#[test]
fn set_for_a_numbered_client() {
    let cmd = Command::Set_ {
        client: ClientId::Id(7),
        param: SetParam::Notification(ssip::NotificationParam::IndexMark, true),
    };
    assert_eq!(cmd.to_string(), "set 7 notification index_mark on\r\n");
    let cmd = Command::Set_ {
        client: ClientId::All,
        param: SetParam::Rate(-5),
    };
    assert_eq!(cmd.to_string(), "set all rate -5\r\n");
}

#[test]
fn get_every_parameter() {
    assert_eq!(Command::Get(GetParam::OutputModule).to_string(), "get output_module\r\n");
    assert_eq!(Command::Get(GetParam::VoiceType).to_string(), "get voice_type\r\n");
    assert_eq!(Command::Get(GetParam::Rate).to_string(), "get rate\r\n");
    assert_eq!(Command::Get(GetParam::Pitch).to_string(), "get pitch\r\n");
    assert_eq!(Command::Get(GetParam::Volume).to_string(), "get volume\r\n");
}

#[test]
fn char_other_than_space_is_sent_as_it_is() {
    assert_eq!(Command::Char('.').to_string(), "char .\r\n");
    assert_eq!(Command::Char('\u{e9}').to_string(), "char \u{e9}\r\n");
    assert_eq!(Command::Char('\u{1f600}').to_string(), "char \u{1f600}\r\n");
    assert_eq!(Command::Char('\t').to_string(), "char \t\r\n");
}

#[test]
fn negative_client_number() {
    assert_eq!(Command::Stop(ClientId::Id(-42)).to_string(), "stop -42\r\n");
    assert_eq!(Command::Pause(ClientId::Id(0)).to_string(), "pause 0\r\n");
}

#[test]
fn speak_sends_escaped_text_between_command_and_closing_line() {
    let cmd = Command::Speak(Speech::from("one\r\n.\r\ntwo"));
    assert_eq!(cmd.to_string(), "speak\r\none\r\n..\r\ntwo\r\n.\r\n");
}

#[test]
fn speak_closes_only_at_its_end() {
    let texts = ["", "one", "one\r\n.\r\ntwo", "a\r\n.", "a\r\n.\r\n", "\r\n.\r\n.\r\n", "x\r\n..\r\n"];
    for text in texts {
        let wire = Command::Speak(Speech::from(text)).to_string();
        assert_eq!(wire.find("\r\n.\r\n"), Some(wire.len() - 5), "{:?}", text);
    }
}

#[test]
fn speak_with_empty_text() {
    let cmd = Command::Speak(Speech::from(""));
    assert_eq!(cmd.to_string(), "speak\r\n\r\n.\r\n");
}

#[test]
fn every_command_ends_with_crlf() {
    let commands = [
        Command::Speak(Speech::from("text")),
        Command::Char('x'),
        Command::Char(' '),
        Command::SoundIcon("bell"),
        Command::Stop(ClientId::All),
        Command::Cancel(ClientId::Self_),
        Command::Pause(ClientId::Id(3)),
        Command::Resume(ClientId::Id(-3)),
        Command::Set_ { client: ClientId::All, param: SetParam::Debug(false) },
        Command::Get(GetParam::Volume),
    ];
    for cmd in commands.iter() {
        assert!(cmd.to_string().ends_with("\r\n"));
    }
}

#[test]
fn a_cloned_command_is_written_alike() {
    let cmd = Command::Speak(Speech::from("a\r\n.b"));
    let copy = cmd.clone();
    assert_eq!(copy.to_string(), cmd.to_string());
    assert_eq!(copy.to_string(), "speak\r\na\r\n..b\r\n.\r\n");
}
