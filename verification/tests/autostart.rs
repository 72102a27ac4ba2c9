use mousee::autostart::{
    autostart_command, check_status, choices, is_enabled, powershell_literal, prompt, run_entry,
    wide, PromptAction, PromptEvent, DEFAULT_CHOICE,
};

#[test]
fn autostart_launches_the_worker_hidden() {
    let command = autostart_command(r"C:\Users\O'Brien\mousee.exe");

    assert!(command.starts_with("powershell.exe "));
    assert!(command.contains("-WindowStyle Hidden"));
    assert!(command.contains("-ArgumentList '--background'"));
    assert!(command.contains(r"-FilePath 'C:\Users\O''Brien\mousee.exe'"));
}

#[test]
fn command_is_spelled_out() {
    assert_eq!(
        autostart_command("m.exe"),
        "powershell.exe -NoLogo -NoProfile -NonInteractive -WindowStyle Hidden \
         -Command \"Start-Process -FilePath 'm.exe' -ArgumentList '--background' \
         -WindowStyle Hidden\""
    );
}

#[test]
fn quotes_are_doubled() {
    assert_eq!(powershell_literal(""), "");
    assert_eq!(powershell_literal("a'b''c"), "a''b''''c");
    for s in ["it's", "''", "plain", "é'ü"] {
        assert_eq!(powershell_literal(s), s.replace('\'', "''"));
    }
}

#[test]
fn wide_text_ends_with_a_zero() {
    assert_eq!(wide(""), vec![0]);
    assert_eq!(wide("Az"), vec![0x41, 0x7a, 0]);
    assert_eq!(wide("\u{20ac}"), vec![0x20ac, 0]);
    assert_eq!(wide("\u{1f5b1}"), vec![0xd83d, 0xddb1, 0]);
    for s in ["mousee", "\u{10ffff}x\u{10000}", "Ünï"] {
        let mut expected: Vec<u16> = s.encode_utf16().collect();
        expected.push(0);
        assert_eq!(wide(s), expected);
    }
}

#[test]
fn run_entry_holds_the_command_low_byte_first() {
    let data = run_entry("m.exe");
    let units: Vec<u16> = data.chunks(2).map(|c| u16::from_le_bytes([c[0], c[1]])).collect();
    assert_eq!(units, wide(&autostart_command("m.exe")));
    assert_eq!(&data[..4], &[0x70, 0, 0x6f, 0]);
    assert_ne!(data, run_entry("n.exe"));
}

#[test]
fn written_entry_is_found_again() {
    let data = run_entry("");
    assert!(is_enabled(0, 1, data.len() as u32));
}

#[test]
fn entry_must_be_a_text_that_is_not_empty() {
    assert!(is_enabled(0, 1, 3));
    assert!(!is_enabled(0, 1, 2));
    assert!(!is_enabled(0, 4, 100));
    assert!(!is_enabled(2, 1, 100));
}

#[test]
fn status_is_an_error_unless_it_is_zero() {
    assert_eq!(check_status(0), Ok(()));
    assert_eq!(check_status(5), Err(5));
}

/// Plays a launch and returns its actions.
fn launch(enabled: bool, dismissed: bool, chosen: Option<usize>) -> Vec<PromptAction> {
    let mut event = PromptEvent::Launched;
    let mut actions = Vec::new();
    loop {
        let action = prompt(event);
        actions.push(action);
        event = match action {
            PromptAction::QueryEnabled => PromptEvent::Enabled(enabled),
            PromptAction::QueryDismissed => PromptEvent::Dismissed(dismissed),
            PromptAction::Ask => PromptEvent::Chosen(chosen),
            PromptAction::Stop => return actions,
            _ => PromptEvent::Performed,
        };
    }
}

#[test]
fn present_entry_is_refreshed_without_a_question() {
    assert_eq!(launch(true, false, Some(1)), vec![PromptAction::QueryEnabled, PromptAction::RefreshEntry, PromptAction::Stop]);
    assert_eq!(launch(true, true, Some(1)), vec![PromptAction::QueryEnabled, PromptAction::RefreshEntry, PromptAction::Stop]);
}

#[test]
fn dismissed_question_does_not_come_again() {
    assert_eq!(launch(false, true, Some(2)), vec![PromptAction::QueryEnabled, PromptAction::QueryDismissed, PromptAction::Stop]);
}

#[test]
fn question_comes_once_and_the_choice_is_carried_out() {
    for (chosen, action) in [
        (None, PromptAction::LeaveUnchanged),
        (Some(DEFAULT_CHOICE), PromptAction::LeaveUnchanged),
        (Some(1), PromptAction::DismissForever),
        (Some(2), PromptAction::AddEntry),
        (Some(7), PromptAction::LeaveUnchanged),
    ] {
        assert_eq!(
            launch(false, false, chosen),
            vec![PromptAction::QueryEnabled, PromptAction::QueryDismissed, PromptAction::Ask, action, PromptAction::Stop]
        );
    }
}

#[test]
fn choices_and_notices_are_worded() {
    assert_eq!(
        choices(),
        vec![
            "No, not now (default)",
            "No, and don't ask again",
            "Yes, start mousee with Windows",
        ]
    );
    assert_eq!(
        PromptAction::DismissForever.notice(),
        Some("Autostart question disabled.\n")
    );
    assert_eq!(
        PromptAction::AddEntry.notice(),
        Some("mousee was added to Windows autostart.\n")
    );
    assert_eq!(
        PromptAction::LeaveUnchanged.notice(),
        Some("Autostart was not changed.\n")
    );
    assert_eq!(PromptAction::RefreshEntry.notice(), None);
}
