use tile_scene::script::{
    chars_of, key_names, parse_script, read_arg, read_command, read_command_kind, read_number,
    split, text_of, word_is, Arg, ArgKind, Command, CommandKind, Field, ScriptError,
    ScriptedCharacter, ScriptedEvent,
};

fn parse(text: &str) -> Option<ScriptedEvent> {
    parse_script("60367".to_string(), text.to_string()).ok()
}

fn refusal(text: &str) -> ScriptError {
    parse_script("60367".to_string(), text.to_string()).unwrap_err()
}

fn unknown(name: &str) -> ScriptError {
    ScriptError::UnknownCommand(name.to_string())
}

fn text(word: &str) -> Arg {
    Arg::Text(word.to_string())
}

fn who(name: &str, x: i32, y: i32, dir: u8) -> ScriptedCharacter {
    ScriptedCharacter { name: name.to_string(), x, y, dir }
}

#[test]
fn reads_the_opening_of_a_scene() {
    let event = parse("continue/64 15/farmer 64 16 2 Lewis 64 18 0/pause 1500").unwrap();
    assert_eq!(
        event,
        ScriptedEvent {
            id: "60367".to_string(),
            music: "continue".to_string(),
            view_x: 64,
            view_y: 15,
            characters: vec![who("farmer", 64, 16, 2), who("Lewis", 64, 18, 0)],
            skippable: false,
            commands: vec![Command { kind: CommandKind::Pause, args: vec![Arg::Number(1500)] }],
        }
    );
}

#[test]
fn script_without_commands() {
    let event = parse("none/-100 -100/Robin 1 2 3").unwrap();
    assert_eq!((event.view_x, event.view_y), (-100, -100));
    assert_eq!(event.characters, vec![who("Robin", 1, 2, 3)]);
    assert!(!event.skippable);
    assert!(event.commands.is_empty());
}

#[test]
fn skippable_comes_before_the_commands() {
    let event = parse("m/0 0/a 0 0 0/skippable/globalFade").unwrap();
    assert!(event.skippable);
    assert_eq!(event.commands, vec![Command { kind: CommandKind::GlobalFade, args: vec![] }]);
    let alone = parse("m/0 0/a 0 0 0/skippable").unwrap();
    assert!(alone.skippable && alone.commands.is_empty());
}

#[test]
fn skippable_elsewhere_is_no_command() {
    assert_eq!(parse("m/0 0/a 0 0 0/globalFade/skippable"), None);
}

#[test]
fn only_the_first_line_counts() {
    let one = parse("m/1 2/a 0 0 0/pause 5");
    let two = parse("m/1 2/a 0 0 0/pause 5\nwhatever/comes here");
    assert!(one.is_some());
    assert_eq!(one, two);
}

#[test]
fn end_and_empty_fields_are_passed_over() {
    let event = parse("m/0 0/a 0 0 0/pause 1//end/pause 2/end warpOut/").unwrap();
    let values: Vec<Vec<Arg>> = event.commands.into_iter().map(|c| c.args).collect();
    assert_eq!(values, vec![vec![Arg::Number(1)], vec![Arg::Number(2)]]);
}

#[test]
fn too_few_fields() {
    assert_eq!(parse(""), None);
    assert_eq!(parse("music"), None);
    assert_eq!(parse("music/1 2"), None);
    assert_eq!(parse("music/1 2\n/a 0 0 0"), None);
}

#[test]
fn corner_needs_two_numbers() {
    assert_eq!(parse("m/1/a 0 0 0"), None);
    assert_eq!(parse("m/1 x/a 0 0 0"), None);
    assert_eq!(parse("m//a 0 0 0"), None);
    assert_eq!(parse("m/1  2/a 0 0 0"), None);
    assert!(parse("m/1 2 3/a 0 0 0").is_some());
}

#[test]
fn characters_come_in_groups_of_four() {
    assert_eq!(parse("m/0 0/"), None);
    assert_eq!(parse("m/0 0/a 0 0"), None);
    assert_eq!(parse("m/0 0/a 0 0 0 b"), None);
    assert_eq!(parse("m/0 0/a 0 0 0 "), None);
    assert_eq!(parse("m/0 0/a 0 0 0 b 1 1 1").unwrap().characters.len(), 2);
}

#[test]
fn character_numbers_have_their_ranges() {
    assert!(parse("m/0 0/a -5 2147483647 255").is_some());
    assert_eq!(parse("m/0 0/a 0 0 256"), None);
    assert_eq!(parse("m/0 0/a 0 0 -1"), None);
    assert_eq!(parse("m/0 0/a 0 2147483648 0"), None);
    assert_eq!(parse("m/0 0/a x 0 0"), None);
    assert_eq!(parse("m/0 0/a -2147483648 0 0").unwrap().characters[0].x, i32::MIN);
}

#[test]
fn character_name_may_be_empty() {
    assert_eq!(parse("m/0 0/ 1 2 3").unwrap().characters, vec![who("", 1, 2, 3)]);
}

#[test]
fn unknown_command() {
    assert_eq!(parse("m/0 0/a 0 0 0/dance"), None);
    assert_eq!(parse("m/0 0/a 0 0 0/Pause 5"), None);
}

#[test]
fn unknown_command_is_reported_by_its_name() {
    assert_eq!(refusal("none/0 0/farmer 1 1 0/dance"), unknown("dance"));
    assert_eq!(refusal("m/0 0/a 0 0 0/Pause 5"), unknown("Pause"));
    assert_eq!(refusal("m/0 0/a 0 0 0/pause 5/jig 1 2/globalFade"), unknown("jig"));
    assert_eq!(refusal("m/0 0/a 0 0 0/skippable/skippable"), unknown("skippable"));
    assert_eq!(refusal("m/0 0/a 0 0 0/END"), unknown("END"));
    assert_eq!(refusal("m/0 0/a 0 0 0/Zoë dances"), unknown("Zoë"));
}

#[test]
fn first_field_that_cannot_be_understood_decides() {
    assert_eq!(refusal("m/0 0/a 0 0 0/pause x/dance"), ScriptError::Malformed);
    assert_eq!(refusal("m/0 0/a 0 0 0/dance/pause x"), unknown("dance"));
    assert_eq!(refusal("m/0 0/a 0 0 0/dance/jig"), unknown("dance"));
    // What comes before the commands is read before them.
    assert_eq!(refusal("m/0 x/a 0 0 0/dance"), ScriptError::Malformed);
    assert_eq!(refusal("m/0 0/a 0 0/dance"), ScriptError::Malformed);
    assert_eq!(refusal("m/0 0"), ScriptError::Malformed);
}

#[test]
fn known_command_with_a_fault_is_malformed() {
    assert_eq!(refusal("m/0 0/a 0 0 0/pause"), ScriptError::Malformed);
    assert_eq!(refusal("m/0 0/a 0 0 0/emote Lewis 256"), ScriptError::Malformed);
    assert_eq!(refusal("m/0 0/a 0 0 0/animate Lewis t t 100 1 x"), ScriptError::Malformed);
    assert_eq!(refusal(""), ScriptError::Malformed);
}

#[test]
fn field_that_begins_with_a_space_holds_no_command() {
    // Its first word is the empty word.
    assert!(parse("m/0 0/a 0 0 0/ pause 5").unwrap().commands.is_empty());
    assert!(parse("m/0 0/a 0 0 0/ dance").unwrap().commands.is_empty());
}

#[test]
fn command_with_a_word_missing() {
    assert_eq!(parse("m/0 0/a 0 0 0/pause"), None);
    assert_eq!(parse("m/0 0/a 0 0 0/move Lewis 1 2"), None);
    assert_eq!(parse("m/0 0/a 0 0 0/speak Lewis"), None);
}

#[test]
fn command_with_a_bad_number() {
    assert_eq!(parse("m/0 0/a 0 0 0/pause -1"), None);
    assert_eq!(parse("m/0 0/a 0 0 0/pause 4294967296"), None);
    assert_eq!(parse("m/0 0/a 0 0 0/emote Lewis 256"), None);
    assert_eq!(parse("m/0 0/a 0 0 0/friendship Lewis ten"), None);
}

#[test]
fn words_beyond_what_a_command_takes_are_passed_over() {
    let event = parse("m/0 0/a 0 0 0/pause 5 and more/globalFade now").unwrap();
    assert_eq!(event.commands[0].args, vec![Arg::Number(5)]);
    assert_eq!(event.commands[1].args, vec![]);
}

#[test]
fn every_command_by_its_name() {
    let script = "m/0 0/a 0 0 0/pause 1/emote Lewis 8/move Lewis 1 -2 3/speak Lewis hi/\
                  globalFade/viewport -3 4/warp Lewis 5 6/faceDirection Lewis 2/showFrame Lewis 9/\
                  speed Lewis 4/playSound bell/shake Lewis 100/jump Lewis/textAboveHead Lewis hm/\
                  addQuest 7/message hello/animate Lewis t f 100 1 2 3/stopAnimation Lewis/\
                  mail spring/friendship Lewis -10/playMusic tune/specificTemporarySprite wed/\
                  changeLocation Town/changeToTemporaryMap Farm/question fork0 why/fork yes/\
                  ambientLight 1 2 3/positionOffset Lewis -1 1";
    let event = parse(script).unwrap();
    let n = Arg::Number;
    let expect = vec![
        (CommandKind::Pause, vec![n(1)]),
        (CommandKind::Emote, vec![text("Lewis"), n(8)]),
        (CommandKind::Move, vec![text("Lewis"), n(1), n(-2), n(3)]),
        (CommandKind::Speak, vec![text("Lewis"), text("hi")]),
        (CommandKind::GlobalFade, vec![]),
        (CommandKind::Viewport, vec![n(-3), n(4)]),
        (CommandKind::Warp, vec![text("Lewis"), n(5), n(6)]),
        (CommandKind::FaceDirection, vec![text("Lewis"), n(2)]),
        (CommandKind::ShowFrame, vec![text("Lewis"), n(9)]),
        (CommandKind::Speed, vec![text("Lewis"), n(4)]),
        (CommandKind::PlaySound, vec![text("bell")]),
        (CommandKind::Shake, vec![text("Lewis"), n(100)]),
        (CommandKind::Jump, vec![text("Lewis")]),
        (CommandKind::TextAboveHead, vec![text("Lewis"), text("hm")]),
        (CommandKind::AddQuest, vec![n(7)]),
        (CommandKind::Message, vec![text("hello")]),
        (
            CommandKind::Animate,
            vec![text("Lewis"), Arg::Flag(true), Arg::Flag(false), n(100), n(1), n(2), n(3)],
        ),
        (CommandKind::StopAnimation, vec![text("Lewis")]),
        (CommandKind::Mail, vec![text("spring")]),
        (CommandKind::Friendship, vec![text("Lewis"), n(-10)]),
        (CommandKind::PlayMusic, vec![text("tune")]),
        (CommandKind::SpecificTemporarySprite, vec![text("wed")]),
        (CommandKind::ChangeLocation, vec![text("Town")]),
        (CommandKind::ChangeToTemporaryMap, vec![text("Farm")]),
        (CommandKind::Question, vec![text("fork0"), text("why")]),
        (CommandKind::Fork, vec![text("yes")]),
        (CommandKind::AmbientLight, vec![n(1), n(2), n(3)]),
        (CommandKind::PositionOffset, vec![text("Lewis"), n(-1), n(1)]),
    ];
    let got: Vec<(CommandKind, Vec<Arg>)> =
        event.commands.into_iter().map(|c| (c.kind, c.args)).collect();
    assert_eq!(got, expect);
}

#[test]
fn signatures() {
    assert!(CommandKind::GlobalFade.takes().is_empty());
    assert_eq!(CommandKind::Move.takes().len(), 4);
    assert_eq!(CommandKind::Animate.takes().len(), 4);
}

#[test]
fn animate_takes_any_number_of_frames() {
    let none = parse("m/0 0/a 0 0 0/animate Lewis t t 100").unwrap();
    assert_eq!(none.commands[0].args.len(), 4);
    assert_eq!(parse("m/0 0/a 0 0 0/animate Lewis t t 100 1 x"), None);
    assert_eq!(parse("m/0 0/a 0 0 0/animate Lewis t t 100 "), None);
}

#[test]
fn flag_is_set_by_the_word_t_only() {
    let event = parse("m/0 0/a 0 0 0/animate Lewis true T 1").unwrap();
    assert_eq!(event.commands[0].args[1], Arg::Flag(false));
    assert_eq!(event.commands[0].args[2], Arg::Flag(false));
}

#[test]
fn text_beyond_ascii() {
    let event = parse("müsic/1 2/Zoë 3 4 1/speak Zoë «hé»").unwrap();
    assert_eq!(event.music, "müsic");
    assert_eq!(event.characters[0].name, "Zoë");
    assert_eq!(event.commands[0].args, vec![text("Zoë"), text("«hé»")]);
}

#[test]
fn numbers() {
    let read = |word: &str, min: i64, max: i64| {
        let chars = chars_of(word);
        read_number(&chars, 0, chars.len(), min, max)
    };
    assert_eq!(read("0", 0, 255), Some(0));
    assert_eq!(read("007", 0, 255), Some(7));
    assert_eq!(read("+7", 0, 255), Some(7));
    assert_eq!(read("255", 0, 255), Some(255));
    assert_eq!(read("256", 0, 255), None);
    assert_eq!(read("-0", 0, 255), None);
    assert_eq!(read("-0", -5, 5), Some(0));
    assert_eq!(read("-5", -5, 5), Some(-5));
    assert_eq!(read("-6", -5, 5), None);
    assert_eq!(read("", -5, 5), None);
    assert_eq!(read("+", -5, 5), None);
    assert_eq!(read("-", -5, 5), None);
    assert_eq!(read("+-1", -5, 5), None);
    assert_eq!(read("1 ", -5, 5), None);
    assert_eq!(read("٣", 0, 255), None);
    assert_eq!(read("4294967295", 0, u32::MAX as i64), Some(4294967295));
    assert_eq!(read("4294967296", 0, u32::MAX as i64), None);
    assert_eq!(read("99999999999999999999999999", 0, u32::MAX as i64), None);
    assert_eq!(read("-2147483648", i32::MIN as i64, i32::MAX as i64), Some(-2147483648));
    assert_eq!(read("-2147483649", i32::MIN as i64, i32::MAX as i64), None);
}

#[test]
fn numbers_agree_with_the_standard_reading() {
    for word in ["0", "12", "+12", "-12", "", "+", "-", "1a", "256", "-0", "0000255", " 1"] {
        let chars = chars_of(word);
        let n = chars.len();
        assert_eq!(
            read_number(&chars, 0, n, 0, 255),
            word.parse::<u8>().ok().map(i64::from),
            "{:?}",
            word
        );
        assert_eq!(
            read_number(&chars, 0, n, i32::MIN as i64, i32::MAX as i64),
            word.parse::<i32>().ok().map(i64::from),
            "{:?}",
            word
        );
    }
}

#[test]
fn splitting() {
    let cut = |text: &str, sep: char| -> Vec<String> {
        let chars = chars_of(text);
        split(&chars, 0, chars.len(), sep)
            .into_iter()
            .map(|(from, to)| chars[from..to].iter().collect())
            .collect()
    };
    assert_eq!(cut("", '/'), vec![""]);
    assert_eq!(cut("a", '/'), vec!["a"]);
    assert_eq!(cut("/", '/'), vec!["", ""]);
    assert_eq!(cut("a/b//c/", '/'), vec!["a", "b", "", "c", ""]);
    for text in ["", "a b", " a  b ", "///", "x/y z"] {
        let expect: Vec<String> = text.split(' ').map(String::from).collect();
        assert_eq!(cut(text, ' '), expect);
    }
}

#[test]
fn splitting_a_part_of_a_text() {
    let chars = chars_of("ab/cd/ef");
    assert_eq!(split(&chars, 1, 7, '/'), vec![(1, 2), (3, 5), (6, 7)]);
    assert_eq!(split(&chars, 2, 2, '/'), vec![(2, 2)]);
}

#[test]
fn comparing_words() {
    let chars = chars_of("pause 1");
    assert!(word_is(&chars, 0, 5, "pause"));
    assert!(!word_is(&chars, 0, 4, "pause"));
    assert!(!word_is(&chars, 0, 5, "pausE"));
    assert!(word_is(&chars, 5, 5, ""));
    assert!(word_is(&chars, 6, 7, "1"));
}

#[test]
fn key_names_its_event_in_the_first_field() {
    assert!(key_names("60367/f Lewis 500/t 600 900", "60367"));
    assert!(key_names("60367", "60367"));
    assert!(!key_names("603670/x", "60367"));
    assert!(!key_names("6036/7", "60367"));
    assert!(!key_names("x/60367", "60367"));
    assert!(key_names("/x", ""));
    assert!(key_names("", ""));
}

#[test]
fn reading_one_command() {
    let source = "x/warp Lewis 3 -4/end/jig";
    let chars = chars_of(source);
    assert_eq!(
        read_command(source, &chars, 2, 17),
        Field::Does(Command {
            kind: CommandKind::Warp,
            args: vec![Arg::Text("Lewis".to_string()), Arg::Number(3), Arg::Number(-4)],
        })
    );
    assert_eq!(read_command(source, &chars, 18, 21), Field::Nothing);
    assert_eq!(read_command(source, &chars, 21, 21), Field::Nothing);
    assert_eq!(read_command(source, &chars, 22, 25), Field::Unknown("jig".to_string()));
    assert_eq!(read_command(source, &chars, 2, 14), Field::Garbled);
}

#[test]
fn reading_one_word() {
    let source = "é 12 t";
    let chars = chars_of(source);
    assert_eq!(chars.len(), 6);
    assert_eq!(text_of(source, 0, 1), "é");
    assert_eq!(text_of(source, 2, 4), "12");
    assert_eq!(read_arg(source, &chars, 2, 4, ArgKind::Text), Some(Arg::Text("12".to_string())));
    assert_eq!(read_arg(source, &chars, 2, 4, ArgKind::U8), Some(Arg::Number(12)));
    assert_eq!(read_arg(source, &chars, 2, 4, ArgKind::Flag), Some(Arg::Flag(false)));
    assert_eq!(read_arg(source, &chars, 5, 6, ArgKind::Flag), Some(Arg::Flag(true)));
    assert_eq!(read_arg(source, &chars, 5, 6, ArgKind::I32), None);
    assert_eq!(read_arg(source, &chars, 0, 1, ArgKind::U32), None);
    assert_eq!(read_command_kind(&chars, 0, 1), None);
    assert_eq!(read_command_kind(&chars_of("mail"), 0, 4), Some(CommandKind::Mail));
}
