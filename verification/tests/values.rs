use ssip::{
    CapitalsMode, ClientId, GetParam, ListParam, NotificationParam, Priority, PunctuationLevel,
};

#[test]
fn client_id_tokens() {
    assert_eq!(ClientId::All.to_string(), "all");
    assert_eq!(ClientId::Self_.to_string(), "self");
    assert_eq!(ClientId::Id(123).to_string(), "123");
}

#[test]
fn client_numbers_in_decimal() {
    assert_eq!(ClientId::Id(0).to_string(), "0");
    assert_eq!(ClientId::Id(7).to_string(), "7");
    assert_eq!(ClientId::Id(10).to_string(), "10");
    assert_eq!(ClientId::Id(-1).to_string(), "-1");
    assert_eq!(ClientId::Id(1000).to_string(), "1000");
    assert_eq!(ClientId::Id(1234567).to_string(), "1234567");
    assert_eq!(ClientId::Id(i32::MAX).to_string(), "2147483647");
    assert_eq!(ClientId::Id(i32::MIN).to_string(), "-2147483648");
}

#[test]
fn client_numbers_agree_with_std() {
    let numbers = [0, 1, -1, 9, 10, 11, 99, 100, 101, -100, 65535, -65536, i32::MAX, i32::MIN];
    for n in numbers {
        assert_eq!(ClientId::Id(n).to_string(), format!("{}", n));
    }
}

#[test]
fn get_param_tokens() {
    assert_eq!(GetParam::OutputModule.to_string(), "output_module");
    assert_eq!(GetParam::VoiceType.to_string(), "voice_type");
    assert_eq!(GetParam::Rate.to_string(), "rate");
    assert_eq!(GetParam::Pitch.to_string(), "pitch");
    assert_eq!(GetParam::Volume.to_string(), "volume");
}

#[test]
fn list_param_tokens() {
    assert_eq!(ListParam::OutputModules.to_string(), "output_modules");
    assert_eq!(ListParam::Voices.to_string(), "voices");
    assert_eq!(ListParam::SynthesisVoices.to_string(), "synthesis_voices");
}

#[test]
fn notification_param_tokens() {
    assert_eq!(NotificationParam::All.to_string(), "all");
    assert_eq!(NotificationParam::Begin.to_string(), "begin");
    assert_eq!(NotificationParam::End.to_string(), "end");
    assert_eq!(NotificationParam::Pause.to_string(), "pause");
    assert_eq!(NotificationParam::Resume.to_string(), "resume");
    assert_eq!(NotificationParam::IndexMark.to_string(), "index_mark");
}

#[test]
fn priority_tokens() {
    assert_eq!(Priority::Progress.to_string(), "progress");
    assert_eq!(Priority::Notification.to_string(), "notification");
    assert_eq!(Priority::Text.to_string(), "text");
    assert_eq!(Priority::Message.to_string(), "message");
    assert_eq!(Priority::Important.to_string(), "important");
}

#[test]
fn punctuation_level_tokens() {
    assert_eq!(PunctuationLevel::None_.to_string(), "none");
    assert_eq!(PunctuationLevel::Some_.to_string(), "some");
    assert_eq!(PunctuationLevel::Most.to_string(), "most");
    assert_eq!(PunctuationLevel::All.to_string(), "all");
}

#[test]
fn capitals_mode_tokens() {
    assert_eq!(CapitalsMode::None_.to_string(), "none");
    assert_eq!(CapitalsMode::Icon.to_string(), "icon");
    assert_eq!(CapitalsMode::Spell.to_string(), "spell");
}

#[test]
fn as_str_and_to_string_agree() {
    assert_eq!(GetParam::Rate.as_str(), GetParam::Rate.to_string());
    assert_eq!(ListParam::Voices.as_str(), "voices");
    assert_eq!(NotificationParam::IndexMark.as_str(), "index_mark");
    assert_eq!(Priority::Text.as_str(), "text");
    assert_eq!(PunctuationLevel::Most.as_str(), "most");
    assert_eq!(CapitalsMode::Spell.as_str(), "spell");
}

#[test]
fn tokens_hold_no_delimiter() {
    let tokens = [
        GetParam::OutputModule.as_str(),
        GetParam::VoiceType.as_str(),
        ListParam::OutputModules.as_str(),
        ListParam::SynthesisVoices.as_str(),
        NotificationParam::IndexMark.as_str(),
        Priority::Notification.as_str(),
        PunctuationLevel::None_.as_str(),
        CapitalsMode::Icon.as_str(),
    ];
    for token in tokens {
        assert!(!token.is_empty());
        assert!(!token.contains(' ') && !token.contains('\r') && !token.contains('\n'));
    }
}

#[test]
fn priorities_are_ordered_by_urgency() {
    let ordered = [
        Priority::Progress,
        Priority::Notification,
        Priority::Text,
        Priority::Message,
        Priority::Important,
    ];
    for i in 0..ordered.len() {
        assert_eq!(ordered[i].level() as usize, i);
        for j in 0..ordered.len() {
            assert_eq!(ordered[i] < ordered[j], i < j);
            assert_eq!(ordered[i] <= ordered[j], i <= j);
            assert_eq!(ordered[i] == ordered[j], i == j);
            assert_eq!(ordered[i].partial_cmp(&ordered[j]), i.partial_cmp(&j));
            assert_eq!(ordered[i].cmp(&ordered[j]), i.cmp(&j));
        }
    }
    assert_eq!(Priority::Text.max(Priority::Important), Priority::Important);
}

#[test]
fn punctuation_levels_are_ordered() {
    let ordered = [
        PunctuationLevel::None_,
        PunctuationLevel::Some_,
        PunctuationLevel::Most,
        PunctuationLevel::All,
    ];
    for i in 0..ordered.len() {
        assert_eq!(ordered[i].level() as usize, i);
        for j in 0..ordered.len() {
            assert_eq!(ordered[i] < ordered[j], i < j);
            assert_eq!(ordered[i] > ordered[j], i > j);
            assert_eq!(ordered[i] == ordered[j], i == j);
            assert_eq!(ordered[i].partial_cmp(&ordered[j]), i.partial_cmp(&j));
            assert_eq!(ordered[i].cmp(&ordered[j]), i.cmp(&j));
        }
    }
}

#[test]
fn values_are_copied_and_compared_by_variant() {
    let p = GetParam::Pitch;
    let q = p;
    assert_eq!(p, q);
    assert_ne!(GetParam::Pitch, GetParam::Rate);
    assert_ne!(ListParam::Voices, ListParam::SynthesisVoices);
    assert_ne!(NotificationParam::Begin, NotificationParam::End);
    assert_ne!(CapitalsMode::Icon, CapitalsMode::Spell);
    let id = ClientId::Id(5);
    let same = id;
    assert_eq!(id.to_string(), same.to_string());
}
