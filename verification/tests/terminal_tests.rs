use luts::agents::Personality;
use luts::terminal::{add_osc8_hyperlinks, agent_choice, command_of, osc8_link, InputCommand};

#[test]
fn menu_numbers_pick_by_position() {
    assert_eq!(agent_choice("1"), Some(Personality::Researcher));
    assert_eq!(agent_choice(" 3 \n"), Some(Personality::Creative));
    assert_eq!(agent_choice("+5"), Some(Personality::Pragmatic));
    assert_eq!(agent_choice("005"), Some(Personality::Pragmatic));
}

#[test]
fn menu_numbers_out_of_range_pick_nothing() {
    assert_eq!(agent_choice("0"), None);
    assert_eq!(agent_choice("6"), None);
    assert_eq!(agent_choice("123456789012345678901234567890"), None);
    assert_eq!(agent_choice("+"), None);
    assert_eq!(agent_choice(""), None);
}

#[test]
fn menu_names_match_key_or_display_name() {
    assert_eq!(agent_choice("Calculator"), Some(Personality::Calculator));
    assert_eq!(agent_choice("dr. research"), Some(Personality::Researcher));
    assert_eq!(agent_choice("MAESTRO"), Some(Personality::Coordinator));
    assert_eq!(agent_choice("  spark  "), Some(Personality::Creative));
    assert_eq!(agent_choice("wizard"), None);
}

#[test]
fn osc8_link_wraps_text_and_url() {
    assert_eq!(
        osc8_link("docs", "https://example.com"),
        "\x1b]8;;https://example.com\x1b\\docs\x1b]8;;\x1b\\"
    );
}

#[test]
fn markdown_links_become_hyperlinks() {
    assert_eq!(
        add_osc8_hyperlinks("see [docs](https://example.com) now"),
        "see \x1b]8;;https://example.com\x1b\\docs\x1b]8;;\x1b\\ now"
    );
    assert_eq!(add_osc8_hyperlinks("no links here"), "no links here");
    assert_eq!(
        add_osc8_hyperlinks("[a](x) and [b](y)"),
        "\x1b]8;;x\x1b\\a\x1b]8;;\x1b\\ and \x1b]8;;y\x1b\\b\x1b]8;;\x1b\\"
    );
}

#[test]
fn conversation_commands_are_recognised() {
    assert_eq!(command_of("   \n"), (InputCommand::Skip, String::new()));
    assert_eq!(command_of("QUIT\n"), (InputCommand::Quit, "QUIT".to_string()));
    assert_eq!(command_of(" exit "), (InputCommand::Quit, "exit".to_string()));
    assert_eq!(command_of("/Switch"), (InputCommand::Switch, "/Switch".to_string()));
    assert_eq!(command_of("  hello there \n"), (InputCommand::Message, "hello there".to_string()));
}
