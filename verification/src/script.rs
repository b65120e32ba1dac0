//! The text of a cutscene script: one line of fields between slashes, the
//! first three of them the music, the cell where the view opens and the
//! characters with their places, the rest commands of words between spaces.

use vstd::prelude::*;
use vstd::string::StrSliceExecFns;

verus! {

/// The pieces of `text` between the occurrences of `sep`, in their order.
/// There is one piece more than there are separators, so at least one.
pub open spec fn pieces(text: Seq<char>, sep: char) -> Seq<Seq<char>>
    decreases text.len(),
{
    if text.len() == 0 {
        seq![Seq::empty()]
    } else {
        let before = pieces(text.drop_last(), sep);
        if text.last() == sep {
            before.push(Seq::empty())
        } else {
            before.drop_last().push(before.last().push(text.last()))
        }
    }
}

/// There is always a piece, and no piece holds the separator.
pub proof fn lemma_pieces(text: Seq<char>, sep: char)
    ensures
        pieces(text, sep).len() >= 1,
        forall|k: int, i: int|
            0 <= k < pieces(text, sep).len() && 0 <= i < pieces(text, sep)[k].len() ==> pieces(
                text,
                sep,
            )[k][i] != sep,
    decreases text.len(),
{
    if text.len() > 0 {
        lemma_pieces(text.drop_last(), sep);
    }
}

/// Text without the separator is one piece.
pub proof fn lemma_one_piece(text: Seq<char>, sep: char)
    requires
        forall|i: int| 0 <= i < text.len() ==> text[i] != sep,
    ensures
        pieces(text, sep) == seq![text],
    decreases text.len(),
{
    if text.len() > 0 {
        lemma_one_piece(text.drop_last(), sep);
        assert(text.drop_last().push(text.last()) == text);
        let before = pieces(text.drop_last(), sep);
        assert(before.drop_last().push(before.last().push(text.last())) == seq![text]);
    } else {
        assert(text == Seq::<char>::empty());
    }
}

/// Whether `ranges` mark the pieces of `text[from..to]` within `text`.
pub open spec fn marks_pieces(
    text: Seq<char>,
    from: int,
    to: int,
    sep: char,
    ranges: Seq<(usize, usize)>,
) -> bool {
    let parts = pieces(text.subrange(from, to), sep);
    &&& ranges.len() == parts.len()
    &&& forall|k: int|
        0 <= k < ranges.len() ==> from <= (#[trigger] ranges[k]).0 <= ranges[k].1 <= to
            && text.subrange(ranges[k].0 as int, ranges[k].1 as int) == parts[k]
}

/// Whether `ranges` lie one behind the other from `from` to `to` with one
/// place between each two, where the separator stands.
pub open spec fn adjoining(from: int, to: int, ranges: Seq<(usize, usize)>) -> bool {
    &&& ranges.len() >= 1
    &&& ranges[0].0 == from
    &&& ranges[ranges.len() - 1].1 == to
    &&& forall|k: int|
        0 <= k < ranges.len() - 1 ==> (#[trigger] ranges[k]).1 + 1 == ranges[k + 1].0
}

/// Marks the pieces of `text[from..to]` between the occurrences of `sep`.
pub fn split(text: &Vec<char>, from: usize, to: usize, sep: char) -> (ranges: Vec<(usize, usize)>)
    requires
        from <= to <= text.len(),
    ensures
        marks_pieces(text@, from as int, to as int, sep, ranges@),
        adjoining(from as int, to as int, ranges@),
        ranges.len() >= 1,
{
    let mut ranges: Vec<(usize, usize)> = Vec::new();
    let mut start: usize = from;
    let mut i: usize = from;
    assert(text@.subrange(from as int, from as int) == Seq::<char>::empty());
    while i < to
        invariant
            from <= start <= i <= to <= text.len(),
            pieces(text@.subrange(from as int, i as int), sep).len() == ranges.len() + 1,
            pieces(text@.subrange(from as int, i as int), sep).last() == text@.subrange(
                start as int,
                i as int,
            ),
            forall|k: int|
                0 <= k < ranges.len() ==> from <= (#[trigger] ranges[k]).0 <= ranges[k].1 <= to
                    && text@.subrange(ranges[k].0 as int, ranges[k].1 as int) == pieces(
                    text@.subrange(from as int, i as int),
                    sep,
                )[k],
            forall|k: int|
                0 <= k < ranges.len() - 1 ==> (#[trigger] ranges[k]).1 + 1 == ranges[k + 1].0,
            ranges.len() > 0 ==> ranges[0].0 == from && ranges[ranges.len() - 1].1 + 1 == start,
            ranges.len() == 0 ==> start == from,
        decreases to - i,
    {
        let ghost upto = text@.subrange(from as int, i as int);
        let ghost next = text@.subrange(from as int, i as int + 1);
        assert(next.drop_last() == upto);
        assert(next.last() == text@[i as int]);
        if text[i] == sep {
            ranges.push((start, i));
            start = i + 1;
            assert(text@.subrange(start as int, start as int) == Seq::<char>::empty());
        } else {
            assert(text@.subrange(start as int, i as int).push(text@[i as int]) == text@.subrange(
                start as int,
                i as int + 1,
            ));
        }
        i = i + 1;
    }
    ranges.push((start, to));
    ranges
}

/// The value of a decimal digit.
pub open spec fn digit_value(c: char) -> Option<int> {
    if '0' <= c <= '9' {
        Some(c as int - '0' as int)
    } else {
        None
    }
}

/// The number that decimal digits write, or `None` if there is no digit or
/// something that is no digit.
pub open spec fn decimal(digits: Seq<char>) -> Option<int>
    decreases digits.len(),
{
    if digits.len() == 0 {
        None
    } else if digits.len() == 1 {
        digit_value(digits[0])
    } else {
        match (decimal(digits.drop_last()), digit_value(digits.last())) {
            (Some(high), Some(low)) => Some(high * 10 + low),
            _ => None,
        }
    }
}

/// The number that a word writes: decimal digits, after a plus sign if the
/// writer likes, or after a minus sign where negative numbers are `signed`
/// for.
pub open spec fn number(word: Seq<char>, signed: bool) -> Option<int> {
    if word.len() > 0 && word[0] == '+' {
        decimal(word.skip(1))
    } else if signed && word.len() > 0 && word[0] == '-' {
        match decimal(word.skip(1)) {
            Some(value) => Some(-value),
            None => None,
        }
    } else {
        decimal(word)
    }
}

/// The number that a word writes, if it lies from `min` to `max`.
pub open spec fn number_within(word: Seq<char>, min: int, max: int) -> Option<i64> {
    match number(word, min < 0) {
        Some(value) => if min <= value <= max {
            Some(value as i64)
        } else {
            None
        },
        None => None,
    }
}

/// Digits write no negative number, and more digits write no smaller one.
pub proof fn lemma_decimal_grows(digits: Seq<char>, n: int)
    requires
        0 < n <= digits.len(),
    ensures
        decimal(digits) matches Some(value) ==> (decimal(digits.take(n)) matches Some(part) && 0
            <= part <= value),
    decreases digits.len(),
{
    if digits.len() > 1 {
        if n < digits.len() {
            lemma_decimal_grows(digits.drop_last(), n);
            assert(digits.drop_last().take(n) == digits.take(n));
        } else {
            lemma_decimal_grows(digits.drop_last(), n - 1);
            assert(digits.take(n) == digits);
        }
    } else {
        assert(digits.take(n) == digits);
    }
}

/// Reads the digits `text[from..to]` as a number of at most `limit`.
fn read_decimal(text: &Vec<char>, from: usize, to: usize, limit: i64) -> (value: Option<i64>)
    requires
        from <= to <= text.len(),
        0 <= limit <= 0x1_0000_0000,
    ensures
        value == match decimal(text@.subrange(from as int, to as int)) {
            Some(v) => if v <= limit {
                Some(v as i64)
            } else {
                None
            },
            None => None,
        },
        value matches Some(v) ==> 0 <= v <= limit,
        decimal(text@.subrange(from as int, to as int)) matches Some(v) ==> 0 <= v,
{
    let ghost digits = text@.subrange(from as int, to as int);
    if from == to {
        return None;
    }
    proof {
        lemma_decimal_grows(digits, digits.len() as int);
    }
    let mut value: i64 = 0;
    let mut i: usize = from;
    while i < to
        invariant
            from <= i <= to <= text.len(),
            from < to,
            digits == text@.subrange(from as int, to as int),
            0 <= limit <= 0x1_0000_0000,
            0 <= value <= limit,
            decimal(digits) matches Some(v) ==> 0 <= v,
            i > from ==> decimal(digits.take(i - from)) == Some(value as int),
            i == from ==> value == 0,
        decreases to - i,
    {
        let c = text[i];
        let ghost upto = digits.take(i - from + 1);
        assert(upto.last() == c);
        assert(upto.drop_last() == digits.take(i - from));
        proof {
            lemma_decimal_grows(digits, i - from + 1);
        }
        if c < '0' || c > '9' {
            return None;
        }
        let low: i64 = (c as u32 - '0' as u32) as i64;
        value = value * 10 + low;
        if value > limit {
            return None;
        }
        i = i + 1;
    }
    assert(digits.take(to - from) == digits);
    Some(value)
}

/// Reads the word `text[from..to]` as a number from `min` to `max`.
pub fn read_number(text: &Vec<char>, from: usize, to: usize, min: i64, max: i64) -> (value: Option<
    i64,
>)
    requires
        from <= to <= text.len(),
        -0x1_0000_0000 <= min <= 0 <= max <= 0x1_0000_0000,
    ensures
        value == number_within(text@.subrange(from as int, to as int), min as int, max as int),
{
    let ghost word = text@.subrange(from as int, to as int);
    if from < to && text[from] == '+' {
        assert(word.skip(1) == text@.subrange(from as int + 1, to as int));
        read_decimal(text, from + 1, to, max)
    } else if min < 0 && from < to && text[from] == '-' {
        assert(word.skip(1) == text@.subrange(from as int + 1, to as int));
        match read_decimal(text, from + 1, to, -min) {
            Some(value) => Some(-value),
            None => None,
        }
    } else {
        read_decimal(text, from, to, max)
    }
}

/// The characters of `text`, one by one.
pub fn chars_of(text: &str) -> (chars: Vec<char>)
    ensures
        chars@ == text@,
{
    let mut chars: Vec<char> = Vec::new();
    for c in it: text.chars()
        invariant
            chars@ == it.seq().take(it.index() as int),
            it.seq() == text@,
    {
        chars.push(c);
    }
    chars
}

/// The characters `text[from..to]` as a string.
pub fn text_of(text: &str, from: usize, to: usize) -> (word: String)
    requires
        from <= to <= text@.len(),
    ensures
        word@ == text@.subrange(from as int, to as int),
{
    text.substring_char(from, to).to_owned()
}

/// Whether the word `text[from..to]` is `word`.
pub fn word_is(text: &Vec<char>, from: usize, to: usize, word: &str) -> (same: bool)
    requires
        from <= to <= text.len(),
    ensures
        same == (text@.subrange(from as int, to as int) == word@),
{
    let len = word.unicode_len();
    if to - from != len {
        return false;
    }
    let mut i: usize = 0;
    while i < len
        invariant
            i <= len,
            len == word@.len(),
            to - from == len,
            from <= to <= text.len(),
            forall|k: int| 0 <= k < i ==> text@[from + k] == word@[k],
        decreases len - i,
    {
        if text[from + i] != word.get_char(i) {
            assert(text@.subrange(from as int, to as int)[i as int] != word@[i as int]);
            return false;
        }
        i = i + 1;
    }
    assert(text@.subrange(from as int, to as int) =~= word@);
    true
}

/// What a command does.
#[derive(Clone, Copy, Debug, PartialEq, Eq, Structural)]
pub enum CommandKind {
    Pause,
    Emote,
    Move,
    Speak,
    GlobalFade,
    Viewport,
    Warp,
    FaceDirection,
    ShowFrame,
    Speed,
    PlaySound,
    Shake,
    Jump,
    TextAboveHead,
    AddQuest,
    Message,
    Animate,
    StopAnimation,
    Mail,
    Friendship,
    PlayMusic,
    SpecificTemporarySprite,
    ChangeLocation,
    ChangeToTemporaryMap,
    Question,
    Fork,
    AmbientLight,
    PositionOffset,
}

/// What a command takes in one place: a word as it is, a number of one of
/// three ranges, or a flag, which is set by the word `t`.
#[derive(Clone, Copy, Debug, PartialEq, Eq, Structural)]
pub enum ArgKind {
    Text,
    U8,
    U32,
    I32,
    Flag,
}

/// What a command was given in one place.
#[derive(Clone, Debug, PartialEq, Eq)]
pub enum Arg {
    Text(String),
    Number(i64),
    Flag(bool),
}

/// A command of a script: what it does, and what it was given, in the order
/// of its words.
#[derive(Clone, Debug, PartialEq, Eq)]
pub struct Command {
    pub kind: CommandKind,
    pub args: Vec<Arg>,
}

/// A character as a cutscene places it: by name, at a cell, facing the way
/// of a script's facing code.
#[derive(Clone, Debug, PartialEq, Eq)]
pub struct ScriptedCharacter {
    pub name: String,
    pub x: i32,
    pub y: i32,
    pub dir: u8,
}

/// A cutscene as its script describes it: what plays, the cell at the
/// top-left corner of the view as it opens, who stands where, whether the
/// scene may be skipped, and what then happens.
#[derive(Clone, Debug, PartialEq, Eq)]
pub struct ScriptedEvent {
    pub id: String,
    pub music: String,
    pub view_x: i32,
    pub view_y: i32,
    pub characters: Vec<ScriptedCharacter>,
    pub skippable: bool,
    pub commands: Vec<Command>,
}

/// What a command was given in one place, as a value.
pub enum ArgView {
    Text(Seq<char>),
    Number(i64),
    Flag(bool),
}

/// A command as a value.
pub struct CommandView {
    pub kind: CommandKind,
    pub args: Seq<ArgView>,
}

/// A placed character as a value.
pub struct ScriptedCharacterView {
    pub name: Seq<char>,
    pub x: i32,
    pub y: i32,
    pub dir: u8,
}

/// A cutscene as a value.
pub struct ScriptedEventView {
    pub id: Seq<char>,
    pub music: Seq<char>,
    pub view_x: i32,
    pub view_y: i32,
    pub characters: Seq<ScriptedCharacterView>,
    pub skippable: bool,
    pub commands: Seq<CommandView>,
}

impl View for Arg {
    type V = ArgView;

    open spec fn view(&self) -> ArgView {
        match *self {
            Arg::Text(word) => ArgView::Text(word@),
            Arg::Number(value) => ArgView::Number(value),
            Arg::Flag(set) => ArgView::Flag(set),
        }
    }
}

impl View for Command {
    type V = CommandView;

    open spec fn view(&self) -> CommandView {
        CommandView { kind: self.kind, args: Seq::new(self.args.len() as nat, |i: int| self.args[i]@) }
    }
}

impl View for ScriptedCharacter {
    type V = ScriptedCharacterView;

    open spec fn view(&self) -> ScriptedCharacterView {
        ScriptedCharacterView { name: self.name@, x: self.x, y: self.y, dir: self.dir }
    }
}

impl View for ScriptedEvent {
    type V = ScriptedEventView;

    open spec fn view(&self) -> ScriptedEventView {
        ScriptedEventView {
            id: self.id@,
            music: self.music@,
            view_x: self.view_x,
            view_y: self.view_y,
            characters: Seq::new(self.characters.len() as nat, |i: int| self.characters[i]@),
            skippable: self.skippable,
            commands: Seq::new(self.commands.len() as nat, |i: int| self.commands[i]@),
        }
    }
}

/// The command that a word names.
pub open spec fn command_kind(name: Seq<char>) -> Option<CommandKind> {
    if name == "pause"@ {
        Some(CommandKind::Pause)
    } else if name == "emote"@ {
        Some(CommandKind::Emote)
    } else if name == "move"@ {
        Some(CommandKind::Move)
    } else if name == "speak"@ {
        Some(CommandKind::Speak)
    } else if name == "globalFade"@ {
        Some(CommandKind::GlobalFade)
    } else if name == "viewport"@ {
        Some(CommandKind::Viewport)
    } else if name == "warp"@ {
        Some(CommandKind::Warp)
    } else if name == "faceDirection"@ {
        Some(CommandKind::FaceDirection)
    } else if name == "showFrame"@ {
        Some(CommandKind::ShowFrame)
    } else if name == "speed"@ {
        Some(CommandKind::Speed)
    } else if name == "playSound"@ {
        Some(CommandKind::PlaySound)
    } else if name == "shake"@ {
        Some(CommandKind::Shake)
    } else if name == "jump"@ {
        Some(CommandKind::Jump)
    } else if name == "textAboveHead"@ {
        Some(CommandKind::TextAboveHead)
    } else if name == "addQuest"@ {
        Some(CommandKind::AddQuest)
    } else if name == "message"@ {
        Some(CommandKind::Message)
    } else if name == "animate"@ {
        Some(CommandKind::Animate)
    } else if name == "stopAnimation"@ {
        Some(CommandKind::StopAnimation)
    } else if name == "mail"@ {
        Some(CommandKind::Mail)
    } else if name == "friendship"@ {
        Some(CommandKind::Friendship)
    } else if name == "playMusic"@ {
        Some(CommandKind::PlayMusic)
    } else if name == "specificTemporarySprite"@ {
        Some(CommandKind::SpecificTemporarySprite)
    } else if name == "changeLocation"@ {
        Some(CommandKind::ChangeLocation)
    } else if name == "changeToTemporaryMap"@ {
        Some(CommandKind::ChangeToTemporaryMap)
    } else if name == "question"@ {
        Some(CommandKind::Question)
    } else if name == "fork"@ {
        Some(CommandKind::Fork)
    } else if name == "ambientLight"@ {
        Some(CommandKind::AmbientLight)
    } else if name == "positionOffset"@ {
        Some(CommandKind::PositionOffset)
    } else {
        None
    }
}

/// Finds the command that the word `text[from..to]` names.
pub fn read_command_kind(text: &Vec<char>, from: usize, to: usize) -> (kind: Option<CommandKind>)
    requires
        from <= to <= text.len(),
    ensures
        kind == command_kind(text@.subrange(from as int, to as int)),
{
    if word_is(text, from, to, "pause") {
        Some(CommandKind::Pause)
    } else if word_is(text, from, to, "emote") {
        Some(CommandKind::Emote)
    } else if word_is(text, from, to, "move") {
        Some(CommandKind::Move)
    } else if word_is(text, from, to, "speak") {
        Some(CommandKind::Speak)
    } else if word_is(text, from, to, "globalFade") {
        Some(CommandKind::GlobalFade)
    } else if word_is(text, from, to, "viewport") {
        Some(CommandKind::Viewport)
    } else if word_is(text, from, to, "warp") {
        Some(CommandKind::Warp)
    } else if word_is(text, from, to, "faceDirection") {
        Some(CommandKind::FaceDirection)
    } else if word_is(text, from, to, "showFrame") {
        Some(CommandKind::ShowFrame)
    } else if word_is(text, from, to, "speed") {
        Some(CommandKind::Speed)
    } else if word_is(text, from, to, "playSound") {
        Some(CommandKind::PlaySound)
    } else if word_is(text, from, to, "shake") {
        Some(CommandKind::Shake)
    } else if word_is(text, from, to, "jump") {
        Some(CommandKind::Jump)
    } else if word_is(text, from, to, "textAboveHead") {
        Some(CommandKind::TextAboveHead)
    } else if word_is(text, from, to, "addQuest") {
        Some(CommandKind::AddQuest)
    } else if word_is(text, from, to, "message") {
        Some(CommandKind::Message)
    } else if word_is(text, from, to, "animate") {
        Some(CommandKind::Animate)
    } else if word_is(text, from, to, "stopAnimation") {
        Some(CommandKind::StopAnimation)
    } else if word_is(text, from, to, "mail") {
        Some(CommandKind::Mail)
    } else if word_is(text, from, to, "friendship") {
        Some(CommandKind::Friendship)
    } else if word_is(text, from, to, "playMusic") {
        Some(CommandKind::PlayMusic)
    } else if word_is(text, from, to, "specificTemporarySprite") {
        Some(CommandKind::SpecificTemporarySprite)
    } else if word_is(text, from, to, "changeLocation") {
        Some(CommandKind::ChangeLocation)
    } else if word_is(text, from, to, "changeToTemporaryMap") {
        Some(CommandKind::ChangeToTemporaryMap)
    } else if word_is(text, from, to, "question") {
        Some(CommandKind::Question)
    } else if word_is(text, from, to, "fork") {
        Some(CommandKind::Fork)
    } else if word_is(text, from, to, "ambientLight") {
        Some(CommandKind::AmbientLight)
    } else if word_is(text, from, to, "positionOffset") {
        Some(CommandKind::PositionOffset)
    } else {
        None
    }
}

/// What a command takes, place by place. `Animate` takes any number of
/// frames after these.
pub open spec fn signature(kind: CommandKind) -> Seq<ArgKind> {
    match kind {
        CommandKind::Pause => seq![ArgKind::U32],
        CommandKind::Emote => seq![ArgKind::Text, ArgKind::U8],
        CommandKind::Move => seq![ArgKind::Text, ArgKind::I32, ArgKind::I32, ArgKind::U8],
        CommandKind::Speak => seq![ArgKind::Text, ArgKind::Text],
        CommandKind::GlobalFade => seq![],
        CommandKind::Viewport => seq![ArgKind::I32, ArgKind::I32],
        CommandKind::Warp => seq![ArgKind::Text, ArgKind::I32, ArgKind::I32],
        CommandKind::FaceDirection => seq![ArgKind::Text, ArgKind::U8],
        CommandKind::ShowFrame => seq![ArgKind::Text, ArgKind::U32],
        CommandKind::Speed => seq![ArgKind::Text, ArgKind::U8],
        CommandKind::PlaySound => seq![ArgKind::Text],
        CommandKind::Shake => seq![ArgKind::Text, ArgKind::U32],
        CommandKind::Jump => seq![ArgKind::Text],
        CommandKind::TextAboveHead => seq![ArgKind::Text, ArgKind::Text],
        CommandKind::AddQuest => seq![ArgKind::U32],
        CommandKind::Message => seq![ArgKind::Text],
        CommandKind::Animate => seq![ArgKind::Text, ArgKind::Flag, ArgKind::Flag, ArgKind::U32],
        CommandKind::StopAnimation => seq![ArgKind::Text],
        CommandKind::Mail => seq![ArgKind::Text],
        CommandKind::Friendship => seq![ArgKind::Text, ArgKind::I32],
        CommandKind::PlayMusic => seq![ArgKind::Text],
        CommandKind::SpecificTemporarySprite => seq![ArgKind::Text],
        CommandKind::ChangeLocation => seq![ArgKind::Text],
        CommandKind::ChangeToTemporaryMap => seq![ArgKind::Text],
        CommandKind::Question => seq![ArgKind::Text, ArgKind::Text],
        CommandKind::Fork => seq![ArgKind::Text],
        CommandKind::AmbientLight => seq![ArgKind::U32, ArgKind::U32, ArgKind::U32],
        CommandKind::PositionOffset => seq![ArgKind::Text, ArgKind::I32, ArgKind::I32],
    }
}

impl CommandKind {
    /// What the command takes, place by place.
    pub fn takes(self) -> (kinds: Vec<ArgKind>)
        ensures
            kinds@ == signature(self),
    {
        match self {
            CommandKind::Pause => vec![ArgKind::U32],
            CommandKind::Emote => vec![ArgKind::Text, ArgKind::U8],
            CommandKind::Move => vec![ArgKind::Text, ArgKind::I32, ArgKind::I32, ArgKind::U8],
            CommandKind::Speak => vec![ArgKind::Text, ArgKind::Text],
            CommandKind::GlobalFade => vec![],
            CommandKind::Viewport => vec![ArgKind::I32, ArgKind::I32],
            CommandKind::Warp => vec![ArgKind::Text, ArgKind::I32, ArgKind::I32],
            CommandKind::FaceDirection => vec![ArgKind::Text, ArgKind::U8],
            CommandKind::ShowFrame => vec![ArgKind::Text, ArgKind::U32],
            CommandKind::Speed => vec![ArgKind::Text, ArgKind::U8],
            CommandKind::PlaySound => vec![ArgKind::Text],
            CommandKind::Shake => vec![ArgKind::Text, ArgKind::U32],
            CommandKind::Jump => vec![ArgKind::Text],
            CommandKind::TextAboveHead => vec![ArgKind::Text, ArgKind::Text],
            CommandKind::AddQuest => vec![ArgKind::U32],
            CommandKind::Message => vec![ArgKind::Text],
            CommandKind::Animate => vec![ArgKind::Text, ArgKind::Flag, ArgKind::Flag, ArgKind::U32],
            CommandKind::StopAnimation => vec![ArgKind::Text],
            CommandKind::Mail => vec![ArgKind::Text],
            CommandKind::Friendship => vec![ArgKind::Text, ArgKind::I32],
            CommandKind::PlayMusic => vec![ArgKind::Text],
            CommandKind::SpecificTemporarySprite => vec![ArgKind::Text],
            CommandKind::ChangeLocation => vec![ArgKind::Text],
            CommandKind::ChangeToTemporaryMap => vec![ArgKind::Text],
            CommandKind::Question => vec![ArgKind::Text, ArgKind::Text],
            CommandKind::Fork => vec![ArgKind::Text],
            CommandKind::AmbientLight => vec![ArgKind::U32, ArgKind::U32, ArgKind::U32],
            CommandKind::PositionOffset => vec![ArgKind::Text, ArgKind::I32, ArgKind::I32],
        }
    }
}

/// What a word gives in a place that takes `kind`, or `None` if the place
/// takes a number and the word writes none of its range.
pub open spec fn arg_of(word: Seq<char>, kind: ArgKind) -> Option<ArgView> {
    match kind {
        ArgKind::Text => Some(ArgView::Text(word)),
        ArgKind::Flag => Some(ArgView::Flag(word == "t"@)),
        ArgKind::U8 => match number_within(word, 0, u8::MAX as int) {
            Some(value) => Some(ArgView::Number(value)),
            None => None,
        },
        ArgKind::U32 => match number_within(word, 0, u32::MAX as int) {
            Some(value) => Some(ArgView::Number(value)),
            None => None,
        },
        ArgKind::I32 => match number_within(word, i32::MIN as int, i32::MAX as int) {
            Some(value) => Some(ArgView::Number(value)),
            None => None,
        },
    }
}

/// Reads the word `text[from..to]` for a place that takes `kind`.
pub fn read_arg(source: &str, text: &Vec<char>, from: usize, to: usize, kind: ArgKind) -> (arg:
    Option<Arg>)
    requires
        source@ == text@,
        from <= to <= text.len(),
    ensures
        arg is Some <==> arg_of(text@.subrange(from as int, to as int), kind) is Some,
        arg matches Some(a) ==> Some(a@) == arg_of(text@.subrange(from as int, to as int), kind),
{
    match kind {
        ArgKind::Text => Some(Arg::Text(text_of(source, from, to))),
        ArgKind::Flag => Some(Arg::Flag(word_is(text, from, to, "t"))),
        ArgKind::U8 => match read_number(text, from, to, 0, u8::MAX as i64) {
            Some(value) => Some(Arg::Number(value)),
            None => None,
        },
        ArgKind::U32 => match read_number(text, from, to, 0, u32::MAX as i64) {
            Some(value) => Some(Arg::Number(value)),
            None => None,
        },
        ArgKind::I32 => match read_number(text, from, to, i32::MIN as i64, i32::MAX as i64) {
            Some(value) => Some(Arg::Number(value)),
            None => None,
        },
    }
}

/// What the words after a command's name give in the first `n` places that
/// the command takes, or `None` if a word is missing or gives nothing.
pub open spec fn args_of(words: Seq<Seq<char>>, kinds: Seq<ArgKind>, n: int) -> Option<Seq<ArgView>>
    decreases n,
{
    if n <= 0 {
        Some(Seq::empty())
    } else {
        match args_of(words, kinds, n - 1) {
            Some(before) => if n < words.len() {
                match arg_of(words[n], kinds[n - 1]) {
                    Some(arg) => Some(before.push(arg)),
                    None => None,
                }
            } else {
                None
            },
            None => None,
        }
    }
}

/// What the words from position `from` up to position `n` give as frames,
/// or `None` if one of them writes no number.
pub open spec fn frames_of(words: Seq<Seq<char>>, from: int, n: int) -> Option<Seq<ArgView>>
    decreases n - from,
{
    if n <= from {
        Some(Seq::empty())
    } else {
        match (frames_of(words, from, n - 1), arg_of(words[n - 1], ArgKind::U32)) {
            (Some(before), Some(arg)) => Some(before.push(arg)),
            _ => None,
        }
    }
}

/// Whether a field holds no command: it is empty or holds the word `end`.
pub open spec fn is_no_command(name: Seq<char>) -> bool {
    name == "end"@ || name == ""@
}

/// What a field between slashes says: `C` is what a command is held as,
/// `W` what a word.
#[derive(Clone, Debug, PartialEq, Eq)]
pub enum Field<C, W> {
    /// Nothing to do.
    Nothing,
    /// A command.
    Does(C),
    /// A command of a name that is none of the known ones. Holds the name.
    Unknown(W),
    /// A known command that lacks a word, or has a word where a number of
    /// its range belongs.
    Garbled,
}

/// Why a script cannot be understood.
#[derive(Clone, Debug, PartialEq, Eq)]
pub enum ScriptError {
    /// A field, a word or a number is missing, or a word stands where a
    /// number of its range belongs.
    Malformed,
    /// A command has a name that is none of the known ones. Holds the name.
    UnknownCommand(String),
}

/// Why a script cannot be understood, as a value.
pub enum ScriptErrorView {
    Malformed,
    UnknownCommand(Seq<char>),
}

impl View for ScriptError {
    type V = ScriptErrorView;

    open spec fn view(&self) -> ScriptErrorView {
        match *self {
            ScriptError::Malformed => ScriptErrorView::Malformed,
            ScriptError::UnknownCommand(name) => ScriptErrorView::UnknownCommand(name@),
        }
    }
}

/// The command that a field holds. Its first word names it, the words after
/// give what it takes; words beyond that are passed over.
pub open spec fn command_of(field: Seq<char>) -> Field<CommandView, Seq<char>> {
    let words = pieces(field, ' ');
    if is_no_command(words[0]) {
        Field::Nothing
    } else {
        match command_kind(words[0]) {
            None => Field::Unknown(words[0]),
            Some(kind) => {
                let kinds = signature(kind);
                match args_of(words, kinds, kinds.len() as int) {
                    None => Field::Garbled,
                    Some(args) => if kind == CommandKind::Animate {
                        match frames_of(words, kinds.len() as int + 1, words.len() as int) {
                            Some(frames) => Field::Does(CommandView { kind, args: args + frames }),
                            None => Field::Garbled,
                        }
                    } else {
                        Field::Does(CommandView { kind, args })
                    },
                }
            },
        }
    }
}

/// The views of arguments, in their order.
pub open spec fn arg_views(args: Seq<Arg>) -> Seq<ArgView> {
    Seq::new(args.len(), |i: int| args[i]@)
}

/// Reads the command that the field `text[from..to]` holds.
pub fn read_command(source: &str, text: &Vec<char>, from: usize, to: usize) -> (field: Field<
    Command,
    String,
>)
    requires
        source@ == text@,
        from <= to <= text.len(),
    ensures
        match (field, command_of(text@.subrange(from as int, to as int))) {
            (Field::Nothing, Field::Nothing) => true,
            (Field::Garbled, Field::Garbled) => true,
            (Field::Unknown(name), Field::Unknown(word)) => name@ == word,
            (Field::Does(command), Field::Does(view)) => command@ == view,
            _ => false,
        },
{
    let ghost parts = pieces(text@.subrange(from as int, to as int), ' ');
    let words = split(text, from, to, ' ');
    let name = words[0];
    assert(text@.subrange(name.0 as int, name.1 as int) == parts[0]);
    if word_is(text, name.0, name.1, "end") || word_is(text, name.0, name.1, "") {
        return Field::Nothing;
    }
    let kind = match read_command_kind(text, name.0, name.1) {
        Some(kind) => kind,
        None => {
            return Field::Unknown(text_of(source, name.0, name.1));
        },
    };
    let kinds = kind.takes();
    let mut args: Vec<Arg> = Vec::new();
    let mut n: usize = 0;
    while n < kinds.len()
        invariant
            n <= kinds.len(),
            kinds@ == signature(kind),
            source@ == text@,
            from <= to <= text.len(),
            parts == pieces(text@.subrange(from as int, to as int), ' '),
            marks_pieces(text@, from as int, to as int, ' ', words@),
            !is_no_command(parts[0]),
            command_kind(parts[0]) == Some(kind),
            args_of(parts, kinds@, n as int) == Some(arg_views(args@)),
        decreases kinds.len() - n,
    {
        if n + 1 >= words.len() {
            proof {
                lemma_args_stay_garbled(parts, kinds@, n as int + 1, kinds.len() as int);
            }
            return Field::Garbled;
        }
        let word = words[n + 1];
        assert(text@.subrange(word.0 as int, word.1 as int) == parts[n + 1]);
        match read_arg(source, text, word.0, word.1, kinds[n]) {
            Some(arg) => {
                let ghost before = arg_views(args@);
                args.push(arg);
                assert(arg_views(args@) == before.push(arg@));
            },
            None => {
                proof {
                    lemma_args_stay_garbled(parts, kinds@, n as int + 1, kinds.len() as int);
                }
                return Field::Garbled;
            },
        }
        n = n + 1;
    }
    if let CommandKind::Animate = kind {
        let ghost fixed = arg_views(args@);
        let first: usize = kinds.len() + 1;
        let mut w: usize = first;
        while w < words.len()
            invariant
                first <= w <= words.len(),
                first == kinds.len() + 1,
                source@ == text@,
                from <= to <= text.len(),
                parts == pieces(text@.subrange(from as int, to as int), ' '),
                marks_pieces(text@, from as int, to as int, ' ', words@),
                !is_no_command(parts[0]),
                command_kind(parts[0]) == Some(kind),
                kind == CommandKind::Animate,
                kinds@ == signature(kind),
                args_of(parts, kinds@, kinds.len() as int) == Some(fixed),
                frames_of(parts, first as int, w as int) matches Some(frames) && arg_views(args@)
                    == fixed + frames,
            decreases words.len() - w,
        {
            let word = words[w];
            assert(text@.subrange(word.0 as int, word.1 as int) == parts[w as int]);
            match read_arg(source, text, word.0, word.1, ArgKind::U32) {
                Some(arg) => {
                    let ghost before = arg_views(args@);
                    let ghost frames = frames_of(parts, first as int, w as int).unwrap();
                    args.push(arg);
                    assert(arg_views(args@) == before.push(arg@));
                    assert(before.push(arg@) == fixed + frames.push(arg@));
                },
                None => {
                    proof {
                        lemma_frames_stay_garbled(
                            parts,
                            first as int,
                            w as int + 1,
                            words.len() as int,
                        );
                    }
                    return Field::Garbled;
                },
            }
            w = w + 1;
        }
    }
    let command = Command { kind, args };
    assert(command@.args == arg_views(command.args@));
    Field::Does(command)
}

/// Once a place could not be filled, no more words make the command good.
proof fn lemma_args_stay_garbled(words: Seq<Seq<char>>, kinds: Seq<ArgKind>, m: int, n: int)
    requires
        m <= n,
        args_of(words, kinds, m) is None,
    ensures
        args_of(words, kinds, n) is None,
    decreases n - m,
{
    if m < n {
        lemma_args_stay_garbled(words, kinds, m, n - 1);
    }
}

/// Once a frame could not be read, no more words make the frames good.
proof fn lemma_frames_stay_garbled(words: Seq<Seq<char>>, from: int, m: int, n: int)
    requires
        m <= n,
        frames_of(words, from, m) is None,
    ensures
        frames_of(words, from, n) is None,
    decreases n - m,
{
    if m < n {
        lemma_frames_stay_garbled(words, from, m, n - 1);
    }
}

/// The first piece of a text ends at the first separator, or with the text.
pub proof fn lemma_first_piece(text: Seq<char>, sep: char, end: int)
    requires
        0 <= end <= text.len(),
        end < text.len() ==> text[end] == sep,
        forall|i: int| 0 <= i < end ==> text[i] != sep,
    ensures
        pieces(text, sep)[0] == text.subrange(0, end),
        pieces(text, sep).len() >= 1,
        end == text.len() ==> pieces(text, sep).len() == 1,
        end < text.len() ==> pieces(text, sep).len() >= 2,
    decreases text.len(),
{
    if end == text.len() {
        lemma_one_piece(text, sep);
        assert(text.subrange(0, end) == text);
    } else {
        let rest = text.drop_last();
        if end == rest.len() {
            lemma_one_piece(rest, sep);
            assert(rest.subrange(0, end) == text.subrange(0, end));
            assert(rest.subrange(0, end) == rest);
        } else {
            lemma_first_piece(rest, sep, end);
            assert(rest.subrange(0, end) == text.subrange(0, end));
        }
    }
}

/// The first line of a text.
pub open spec fn first_line(text: Seq<char>) -> Seq<char> {
    pieces(text, '\n')[0]
}

/// The cell that a field of two numbers names. Words after the two are
/// passed over.
pub open spec fn corner_of(field: Seq<char>) -> Option<(i32, i32)> {
    let words = pieces(field, ' ');
    if words.len() >= 2 {
        match (
            number_within(words[0], i32::MIN as int, i32::MAX as int),
            number_within(words[1], i32::MIN as int, i32::MAX as int),
        ) {
            (Some(x), Some(y)) => Some((x as i32, y as i32)),
            _ => None,
        }
    } else {
        None
    }
}

/// The character that the `g`-th group of four words places: its name, its
/// cell and its facing code.
pub open spec fn character_of(words: Seq<Seq<char>>, g: int) -> Option<ScriptedCharacterView> {
    match (
        number_within(words[4 * g + 1], i32::MIN as int, i32::MAX as int),
        number_within(words[4 * g + 2], i32::MIN as int, i32::MAX as int),
        number_within(words[4 * g + 3], 0, u8::MAX as int),
    ) {
        (Some(x), Some(y), Some(dir)) => Some(
            ScriptedCharacterView { name: words[4 * g], x: x as i32, y: y as i32, dir: dir as u8 },
        ),
        _ => None,
    }
}

/// The characters that the first `n` groups of four words place.
pub open spec fn characters_of(words: Seq<Seq<char>>, n: int) -> Option<Seq<ScriptedCharacterView>>
    decreases n,
{
    if n <= 0 {
        Some(Seq::empty())
    } else {
        match (characters_of(words, n - 1), character_of(words, n - 1)) {
            (Some(before), Some(character)) => Some(before.push(character)),
            _ => None,
        }
    }
}

/// The characters that a field places: its words in groups of four, and no
/// word left over. Since a field has a word at least, it places a character
/// at least.
pub open spec fn cast_of(field: Seq<char>) -> Option<Seq<ScriptedCharacterView>> {
    let words = pieces(field, ' ');
    if words.len() % 4 == 0 {
        characters_of(words, words.len() as int / 4)
    } else {
        None
    }
}

/// The commands that the fields from position `from` up to position `n`
/// hold, or what is wrong with the first of these fields that cannot be
/// understood.
pub open spec fn commands_of(fields: Seq<Seq<char>>, from: int, n: int) -> Result<
    Seq<CommandView>,
    ScriptErrorView,
>
    decreases n - from,
{
    if n <= from {
        Ok(Seq::empty())
    } else {
        match commands_of(fields, from, n - 1) {
            Ok(before) => match command_of(fields[n - 1]) {
                Field::Nothing => Ok(before),
                Field::Does(command) => Ok(before.push(command)),
                Field::Unknown(name) => Err(ScriptErrorView::UnknownCommand(name)),
                Field::Garbled => Err(ScriptErrorView::Malformed),
            },
            Err(error) => Err(error),
        }
    }
}

/// The cutscene that a script describes, or why the script cannot be
/// understood. Only the first line counts. Its fields are the music, the
/// cell where the view opens, the characters, then the word `skippable` if
/// the scene may be skipped, then the commands. The fields are read in this
/// order, and what is wrong with the first that cannot be understood is
/// what is wrong with the script.
pub open spec fn script_event(id: Seq<char>, text: Seq<char>) -> Result<
    ScriptedEventView,
    ScriptErrorView,
> {
    let fields = pieces(first_line(text), '/');
    if fields.len() < 3 {
        Err(ScriptErrorView::Malformed)
    } else {
        let skippable = fields.len() > 3 && fields[3] == "skippable"@;
        let first: int = if skippable {
            4
        } else {
            3
        };
        match (corner_of(fields[1]), cast_of(fields[2])) {
            (Some(corner), Some(characters)) => match commands_of(
                fields,
                first,
                fields.len() as int,
            ) {
                Ok(commands) => Ok(
                    ScriptedEventView {
                        id,
                        music: fields[0],
                        view_x: corner.0,
                        view_y: corner.1,
                        characters,
                        skippable,
                        commands,
                    },
                ),
                Err(error) => Err(error),
            },
            _ => Err(ScriptErrorView::Malformed),
        }
    }
}

/// Reads the cell that the field `text[from..to]` names.
fn read_corner(text: &Vec<char>, from: usize, to: usize) -> (corner: Option<(i32, i32)>)
    requires
        from <= to <= text.len(),
    ensures
        corner == corner_of(text@.subrange(from as int, to as int)),
{
    let ghost parts = pieces(text@.subrange(from as int, to as int), ' ');
    let words = split(text, from, to, ' ');
    if words.len() < 2 {
        return None;
    }
    assert(text@.subrange(words[0].0 as int, words[0].1 as int) == parts[0]);
    assert(text@.subrange(words[1].0 as int, words[1].1 as int) == parts[1]);
    let x = read_number(text, words[0].0, words[0].1, i32::MIN as i64, i32::MAX as i64);
    let y = read_number(text, words[1].0, words[1].1, i32::MIN as i64, i32::MAX as i64);
    match (x, y) {
        (Some(x), Some(y)) => Some((x as i32, y as i32)),
        _ => None,
    }
}

/// The views of characters, in their order.
pub open spec fn character_views(characters: Seq<ScriptedCharacter>) -> Seq<ScriptedCharacterView> {
    Seq::new(characters.len(), |i: int| characters[i]@)
}

/// The views of commands, in their order.
pub open spec fn command_views(commands: Seq<Command>) -> Seq<CommandView> {
    Seq::new(commands.len(), |i: int| commands[i]@)
}

/// Once a character could not be read, no more words make the cast good.
proof fn lemma_characters_stay_garbled(words: Seq<Seq<char>>, m: int, n: int)
    requires
        m <= n,
        characters_of(words, m) is None,
    ensures
        characters_of(words, n) is None,
    decreases n - m,
{
    if m < n {
        lemma_characters_stay_garbled(words, m, n - 1);
    }
}

/// Once a field could not be understood, what was wrong with it is what is
/// wrong with the commands, whatever fields follow.
pub proof fn lemma_first_error_stays(fields: Seq<Seq<char>>, from: int, m: int, n: int)
    requires
        m <= n,
        commands_of(fields, from, m) is Err,
    ensures
        commands_of(fields, from, n) == commands_of(fields, from, m),
    decreases n - m,
{
    if m < n {
        lemma_first_error_stays(fields, from, m, n - 1);
    }
}

/// Reads the characters that the field `text[from..to]` places.
fn read_cast(source: &str, text: &Vec<char>, from: usize, to: usize) -> (cast: Option<
    Vec<ScriptedCharacter>,
>)
    requires
        source@ == text@,
        from <= to <= text.len(),
    ensures
        cast is Some <==> cast_of(text@.subrange(from as int, to as int)) is Some,
        cast matches Some(c) ==> Some(character_views(c@)) == cast_of(
            text@.subrange(from as int, to as int),
        ),
{
    let ghost parts = pieces(text@.subrange(from as int, to as int), ' ');
    let words = split(text, from, to, ' ');
    if words.len() % 4 != 0 {
        return None;
    }
    let groups = words.len() / 4;
    let mut cast: Vec<ScriptedCharacter> = Vec::new();
    let mut g: usize = 0;
    while g < groups
        invariant
            g <= groups,
            groups * 4 == words.len(),
            source@ == text@,
            from <= to <= text.len(),
            parts == pieces(text@.subrange(from as int, to as int), ' '),
            marks_pieces(text@, from as int, to as int, ' ', words@),
            characters_of(parts, g as int) == Some(character_views(cast@)),
        decreases groups - g,
    {
        let name = words[4 * g];
        let x = words[4 * g + 1];
        let y = words[4 * g + 2];
        let dir = words[4 * g + 3];
        assert(text@.subrange(name.0 as int, name.1 as int) == parts[4 * g]);
        assert(text@.subrange(x.0 as int, x.1 as int) == parts[4 * g + 1]);
        assert(text@.subrange(y.0 as int, y.1 as int) == parts[4 * g + 2]);
        assert(text@.subrange(dir.0 as int, dir.1 as int) == parts[4 * g + 3]);
        let x = read_number(text, x.0, x.1, i32::MIN as i64, i32::MAX as i64);
        let y = read_number(text, y.0, y.1, i32::MIN as i64, i32::MAX as i64);
        let dir = read_number(text, dir.0, dir.1, 0, u8::MAX as i64);
        match (x, y, dir) {
            (Some(x), Some(y), Some(dir)) => {
                let character = ScriptedCharacter {
                    name: text_of(source, name.0, name.1),
                    x: x as i32,
                    y: y as i32,
                    dir: dir as u8,
                };
                let ghost before = character_views(cast@);
                cast.push(character);
                assert(character_views(cast@) == before.push(character@));
            },
            _ => {
                proof {
                    lemma_characters_stay_garbled(parts, g as int + 1, groups as int);
                }
                return None;
            },
        }
        g = g + 1;
    }
    Some(cast)
}

/// Reads the commands that the fields from position `first` on hold.
fn read_commands(
    source: &str,
    text: &Vec<char>,
    end: usize,
    fields: &Vec<(usize, usize)>,
    first: usize,
) -> (commands: Result<Vec<Command>, ScriptError>)
    requires
        source@ == text@,
        end <= text.len(),
        marks_pieces(text@, 0, end as int, '/', fields@),
        first <= fields.len(),
    ensures
        match (
            commands,
            commands_of(
                pieces(text@.subrange(0, end as int), '/'),
                first as int,
                fields.len() as int,
            ),
        ) {
            (Ok(c), Ok(views)) => command_views(c@) == views,
            (Err(e), Err(error)) => e@ == error,
            _ => false,
        },
{
    let ghost parts = pieces(text@.subrange(0, end as int), '/');
    let mut commands: Vec<Command> = Vec::new();
    let mut f: usize = first;
    assert(command_views(commands@) == Seq::<CommandView>::empty());
    while f < fields.len()
        invariant
            first <= f <= fields.len(),
            source@ == text@,
            end <= text.len(),
            parts == pieces(text@.subrange(0, end as int), '/'),
            marks_pieces(text@, 0, end as int, '/', fields@),
            commands_of(parts, first as int, f as int) == Ok::<Seq<CommandView>, ScriptErrorView>(
                command_views(commands@),
            ),
        decreases fields.len() - f,
    {
        let field = fields[f];
        assert(text@.subrange(field.0 as int, field.1 as int) == parts[f as int]);
        match read_command(source, text, field.0, field.1) {
            Field::Nothing => {},
            Field::Does(command) => {
                let ghost before = command_views(commands@);
                commands.push(command);
                assert(command_views(commands@) == before.push(command@));
            },
            Field::Unknown(name) => {
                proof {
                    lemma_first_error_stays(parts, first as int, f as int + 1, fields.len() as int);
                }
                return Err(ScriptError::UnknownCommand(name));
            },
            Field::Garbled => {
                proof {
                    lemma_first_error_stays(parts, first as int, f as int + 1, fields.len() as int);
                }
                return Err(ScriptError::Malformed);
            },
        }
        f = f + 1;
    }
    Ok(commands)
}

/// Finds where the first piece of `text` ends.
fn first_piece_end(text: &Vec<char>, sep: char) -> (end: usize)
    ensures
        end <= text.len(),
        pieces(text@, sep)[0] == text@.subrange(0, end as int),
{
    let mut end: usize = 0;
    while end < text.len() && text[end] != sep
        invariant
            end <= text.len(),
            forall|i: int| 0 <= i < end ==> text@[i] != sep,
        decreases text.len() - end,
    {
        end = end + 1;
    }
    proof {
        lemma_first_piece(text@, sep, end as int);
    }
    end
}

/// Reads a cutscene from its script, or says why the script cannot be
/// understood. A command of unknown name is reported by its name.
pub fn parse_script(id: String, s: String) -> (event: Result<ScriptedEvent, ScriptError>)
    ensures
        match (event, script_event(id@, s@)) {
            (Ok(e), Ok(view)) => e@ == view,
            (Err(e), Err(error)) => e@ == error,
            _ => false,
        },
{
    let source = s.as_str();
    let text = chars_of(source);
    let end = first_piece_end(&text, '\n');
    let ghost parts = pieces(first_line(s@), '/');
    let fields = split(&text, 0, end, '/');
    if fields.len() < 3 {
        return Err(ScriptError::Malformed);
    }
    let music = fields[0];
    let corner = fields[1];
    let cast = fields[2];
    assert(text@.subrange(music.0 as int, music.1 as int) == parts[0]);
    assert(text@.subrange(corner.0 as int, corner.1 as int) == parts[1]);
    assert(text@.subrange(cast.0 as int, cast.1 as int) == parts[2]);
    let corner = match read_corner(&text, corner.0, corner.1) {
        Some(corner) => corner,
        None => {
            return Err(ScriptError::Malformed);
        },
    };
    let characters = match read_cast(source, &text, cast.0, cast.1) {
        Some(characters) => characters,
        None => {
            return Err(ScriptError::Malformed);
        },
    };
    let mut skippable = false;
    if fields.len() > 3 {
        let word = fields[3];
        assert(text@.subrange(word.0 as int, word.1 as int) == parts[3]);
        skippable = word_is(&text, word.0, word.1, "skippable");
    }
    let first: usize = if skippable {
        4
    } else {
        3
    };
    let commands = match read_commands(source, &text, end, &fields, first) {
        Ok(commands) => commands,
        Err(error) => {
            return Err(error);
        },
    };
    let event = ScriptedEvent {
        id,
        music: text_of(source, music.0, music.1),
        view_x: corner.0,
        view_y: corner.1,
        characters,
        skippable,
        commands,
    };
    assert(event@.characters == character_views(event.characters@));
    assert(event@.commands == command_views(event.commands@));
    Ok(event)
}

/// Whether a script stored under `key` is that of the event `id`: whether
/// the key's first field is the id. The fields after it say when the event
/// takes place.
pub open spec fn key_names_spec(key: &str, id: &str) -> bool {
    pieces(key@, '/')[0] == id@
}

/// Tests whether a script stored under `key` is that of the event `id`.
#[verifier::when_used_as_spec(key_names_spec)]
pub fn key_names(key: &str, id: &str) -> (named: bool)
    ensures
        named == key_names_spec(key, id),
{
    let text = chars_of(key);
    let end = first_piece_end(&text, '/');
    word_is(&text, 0, end, id)
}

/// Only the first line of a script counts: what follows the first line
/// break changes nothing.
pub proof fn lemma_only_first_line_counts(id: Seq<char>, text: Seq<char>, other: Seq<char>)
    requires
        first_line(text) == first_line(other),
    ensures
        script_event(id, text) == script_event(id, other),
{
}

/// A script that can be understood places a character at least, and names
/// the music, the corner and the characters in its first three fields.
pub proof fn lemma_event_has_cast(id: Seq<char>, text: Seq<char>)
    ensures
        script_event(id, text) matches Ok(event) ==> event.characters.len() >= 1 && event.id
            == id && pieces(first_line(text), '/').len() >= 3,
{
    if script_event(id, text) is Ok {
        let fields = pieces(first_line(text), '/');
        let words = pieces(fields[2], ' ');
        lemma_pieces(fields[2], ' ');
        lemma_characters_len(words, words.len() as int / 4);
    }
}

/// As many characters are placed as there are groups of words.
pub proof fn lemma_characters_len(words: Seq<Seq<char>>, n: int)
    requires
        n >= 0,
    ensures
        characters_of(words, n) matches Some(characters) ==> characters.len() == n,
    decreases n,
{
    if n > 0 {
        lemma_characters_len(words, n - 1);
    }
}

/// A field is passed over only if its first word is empty or is `end`. A
/// first word that is none of these and names no known command is reported
/// with that word.
pub proof fn lemma_unknown_command_is_named(field: Seq<char>)
    ensures
        ({
            let name = pieces(field, ' ')[0];
            &&& command_of(field) is Nothing <==> is_no_command(name)
            &&& command_of(field) == Field::<CommandView, Seq<char>>::Unknown(name) <==> !is_no_command(name)
                && command_kind(name) is None
            &&& command_of(field) matches Field::Unknown(word) ==> word == name
        }),
{
}

/// A script whose first three fields can be understood and whose first field
/// after them that cannot holds a command of unknown name is refused with
/// that name: no such command is passed over.
pub proof fn lemma_unknown_command_is_reported(id: Seq<char>, text: Seq<char>, f: int)
    requires
        ({
            let fields = pieces(first_line(text), '/');
            let first: int = if fields.len() > 3 && fields[3] == "skippable"@ {
                4
            } else {
                3
            };
            &&& fields.len() >= 3
            &&& corner_of(fields[1]) is Some
            &&& cast_of(fields[2]) is Some
            &&& first <= f < fields.len()
            &&& commands_of(fields, first, f) is Ok
            &&& command_of(fields[f]) is Unknown
        }),
    ensures
        script_event(id, text) == Err::<ScriptedEventView, ScriptErrorView>(
            ScriptErrorView::UnknownCommand(pieces(pieces(first_line(text), '/')[f], ' ')[0]),
        ),
{
    let fields = pieces(first_line(text), '/');
    let first: int = if fields.len() > 3 && fields[3] == "skippable"@ {
        4
    } else {
        3
    };
    lemma_first_error_stays(fields, first, f + 1, fields.len() as int);
}

} // verus!
