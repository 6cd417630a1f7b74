//! Startup warm modes and the words that select them.

use vstd::prelude::*;

use crate::render::text_of_chars;

verus! {

/// Whether Unicode counts the character as white space.
pub open spec fn is_white_space(character: char) -> bool {
    let code = character as int;
    ||| 0x09 <= code <= 0x0d
    ||| code == 0x20
    ||| code == 0x85
    ||| code == 0xa0
    ||| code == 0x1680
    ||| 0x2000 <= code <= 0x200a
    ||| code == 0x2028
    ||| code == 0x2029
    ||| code == 0x202f
    ||| code == 0x205f
    ||| code == 0x3000
}

/// `char::is_whitespace` of std: the characters with the Unicode `White_Space`
/// property, which are listed in full.
pub assume_specification[ char::is_whitespace ](character: char) -> (white: bool)
    ensures
        white == is_white_space(character),
;

/// The text without white space at its ends.
pub open spec fn trimmed(text: Seq<char>) -> Seq<char> {
    trimmed_end(trimmed_start(text))
}

/// The text without white space at its start.
pub open spec fn trimmed_start(text: Seq<char>) -> Seq<char>
    decreases text.len(),
{
    if text.len() > 0 && is_white_space(text[0]) {
        trimmed_start(text.drop_first())
    } else {
        text
    }
}

/// The text without white space at its end.
pub open spec fn trimmed_end(text: Seq<char>) -> Seq<char>
    decreases text.len(),
{
    if text.len() > 0 && is_white_space(text.last()) {
        trimmed_end(text.drop_last())
    } else {
        text
    }
}

/// The lower-case form of an ASCII letter; other characters as they are.
pub open spec fn ascii_lower(character: char) -> char {
    if 'A' <= character <= 'Z' {
        ((character as u32 + 32) as u8) as char
    } else {
        character
    }
}

/// The word that a setting's text stands for.
pub open spec fn setting_word(text: Seq<char>) -> Seq<char> {
    trimmed(text).map_values(|character: char| ascii_lower(character))
}

fn lower(character: char) -> (lowered: char)
    ensures
        lowered == ascii_lower(character),
{
    if 'A' <= character && character <= 'Z' {
        ((character as u32 + 32) as u8) as char
    } else {
        character
    }
}

/// The word that a setting's text stands for.
pub fn word_of_setting(text: &str) -> (word: Vec<char>)
    ensures
        word@ == setting_word(text@),
{
    let count = text.unicode_len();
    let mut start: usize = 0;
    assert(text@.skip(0) =~= text@);
    while start < count && text.get_char(start).is_whitespace()
        invariant
            start <= count,
            count == text@.len(),
            trimmed_start(text@.skip(start as int)) == trimmed_start(text@),
        ensures
            start <= count,
            text@.skip(start as int) == trimmed_start(text@),
        decreases count - start,
    {
        assert(text@.skip(start as int).drop_first() =~= text@.skip(start as int + 1));
        start = start + 1;
    }
    let ghost tail = text@.skip(start as int);
    let mut end: usize = count;
    assert(text@.subrange(start as int, end as int) =~= tail);
    while end > start && text.get_char(end - 1).is_whitespace()
        invariant
            start <= end <= count,
            count == text@.len(),
            tail == text@.skip(start as int),
            trimmed_end(text@.subrange(start as int, end as int)) == trimmed_end(tail),
        ensures
            start <= end <= count,
            text@.subrange(start as int, end as int) == trimmed_end(tail),
        decreases end,
    {
        assert(text@.subrange(start as int, end as int).drop_last() =~= text@.subrange(
            start as int,
            end as int - 1,
        ));
        end = end - 1;
    }
    let ghost kept = text@.subrange(start as int, end as int);
    let mut word: Vec<char> = Vec::new();
    let mut i: usize = start;
    while i < end
        invariant
            start <= i <= end <= count,
            count == text@.len(),
            kept == text@.subrange(start as int, end as int),
            word@.len() == i - start,
            forall|k: int| 0 <= k < word@.len() ==> word@[k] == ascii_lower(#[trigger] kept[k]),
        decreases end - i,
    {
        word.push(lower(text.get_char(i)));
        i = i + 1;
    }
    assert(word@ =~= setting_word(text@));
    word
}

/// Whether the characters spell the word.
pub fn spells(characters: &Vec<char>, word: &str) -> (same: bool)
    ensures
        same == (characters@ == word@),
{
    if characters.len() != word.unicode_len() {
        return false;
    }
    let mut i: usize = 0;
    while i < characters.len()
        invariant
            i <= characters.len(),
            characters@.len() == word@.len(),
            forall|k: int| 0 <= k < i ==> characters@[k] == word@[k],
        decreases characters.len() - i,
    {
        if characters[i] != word.get_char(i) {
            return false;
        }
        i = i + 1;
    }
    assert(characters@ =~= word@);
    true
}

/// Startup cache warm behavior.
#[derive(Debug, Clone, Copy, PartialEq, Eq, Structural)]
pub enum CacheWarmMode {
    /// Complete best-effort warming before database open returns.
    Blocking,
    /// Return from open and warm in an owned background task.
    Background,
    /// Skip proactive warming while retaining demand caching.
    Off,
}

impl Default for CacheWarmMode {
    fn default() -> (mode: Self)
        ensures
            mode == CacheWarmMode::Background,
    {
        CacheWarmMode::Background
    }
}

/// `head`, the word and `tail`, as a rejected setting is reported.
fn rejected(head: &str, word: &Vec<char>, tail: &str) -> (message: String)
    ensures
        message@ == head@ + word@ + tail@,
{
    let mut message = head.to_owned();
    let text = text_of_chars(word);
    message.append(text.as_str());
    message.append(tail);
    message
}

impl CacheWarmMode {
    /// The mode that a setting selects. White space around the word and the
    /// case of its letters do not matter.
    pub fn parse(value: &str) -> (parsed: Result<CacheWarmMode, String>)
        ensures
            match parsed {
                Ok(CacheWarmMode::Blocking) => setting_word(value@) == "blocking"@,
                Ok(CacheWarmMode::Background) => setting_word(value@) == "background"@,
                Ok(CacheWarmMode::Off) => setting_word(value@) == "off"@,
                Err(message) => {
                    &&& setting_word(value@) != "blocking"@
                    &&& setting_word(value@) != "background"@
                    &&& setting_word(value@) != "off"@
                    &&& message@ == "invalid cache warm mode '"@ + setting_word(value@)
                        + "', expected blocking, background, or off"@
                },
            },
    {
        let word = word_of_setting(value);
        if spells(&word, "blocking") {
            Ok(CacheWarmMode::Blocking)
        } else if spells(&word, "background") {
            Ok(CacheWarmMode::Background)
        } else if spells(&word, "off") {
            Ok(CacheWarmMode::Off)
        } else {
            Err(
                rejected(
                    "invalid cache warm mode '",
                    &word,
                    "', expected blocking, background, or off",
                ),
            )
        }
    }
}

impl std::str::FromStr for CacheWarmMode {
    type Err = String;

    fn from_str(value: &str) -> Result<CacheWarmMode, String> {
        CacheWarmMode::parse(value)
    }
}

/// Object-store disk cache startup preload.
#[derive(Debug, Clone, Copy, PartialEq, Eq, Structural)]
pub enum ObjectStoreWarmLevel {
    /// Do not preload object-store cache files on startup.
    Off,
    /// Preload only L0 object-store cache files on startup.
    L0,
    /// Preload every discovered object-store cache file on startup.
    All,
}

/// What the storage engine preloads into its disk cache.
#[derive(Debug, Clone, Copy, PartialEq, Eq, Structural)]
pub enum PreloadLevel {
    /// The newest, not yet compacted tables.
    L0Sst,
    /// All tables.
    AllSst,
}

impl Default for ObjectStoreWarmLevel {
    fn default() -> (level: Self)
        ensures
            level == ObjectStoreWarmLevel::Off,
    {
        ObjectStoreWarmLevel::Off
    }
}

impl ObjectStoreWarmLevel {
    /// What the storage engine is told to preload.
    pub fn to_slate_preload(self) -> (preload: Option<PreloadLevel>)
        ensures
            preload == match self {
                ObjectStoreWarmLevel::Off => None::<PreloadLevel>,
                ObjectStoreWarmLevel::L0 => Some(PreloadLevel::L0Sst),
                ObjectStoreWarmLevel::All => Some(PreloadLevel::AllSst),
            },
    {
        match self {
            ObjectStoreWarmLevel::Off => None,
            ObjectStoreWarmLevel::L0 => Some(PreloadLevel::L0Sst),
            ObjectStoreWarmLevel::All => Some(PreloadLevel::AllSst),
        }
    }

    /// The level that a setting selects. White space around the word and the
    /// case of its letters do not matter.
    pub fn parse(value: &str) -> (parsed: Result<ObjectStoreWarmLevel, String>)
        ensures
            match parsed {
                Ok(ObjectStoreWarmLevel::Off) => setting_word(value@) == "off"@,
                Ok(ObjectStoreWarmLevel::L0) => setting_word(value@) == "l0"@,
                Ok(ObjectStoreWarmLevel::All) => setting_word(value@) == "all"@,
                Err(message) => {
                    &&& setting_word(value@) != "off"@
                    &&& setting_word(value@) != "l0"@
                    &&& setting_word(value@) != "all"@
                    &&& message@ == "invalid object-store warm level '"@ + setting_word(value@)
                        + "', expected off, l0, or all"@
                },
            },
    {
        let word = word_of_setting(value);
        if spells(&word, "off") {
            Ok(ObjectStoreWarmLevel::Off)
        } else if spells(&word, "l0") {
            Ok(ObjectStoreWarmLevel::L0)
        } else if spells(&word, "all") {
            Ok(ObjectStoreWarmLevel::All)
        } else {
            Err(
                rejected(
                    "invalid object-store warm level '",
                    &word,
                    "', expected off, l0, or all",
                ),
            )
        }
    }
}

impl std::str::FromStr for ObjectStoreWarmLevel {
    type Err = String;

    fn from_str(value: &str) -> Result<ObjectStoreWarmLevel, String> {
        ObjectStoreWarmLevel::parse(value)
    }
}

proof fn lemma_trimmed_start(text: Seq<char>) -> (count: int)
    ensures
        0 <= count <= text.len(),
        trimmed_start(text) == text.skip(count),
        forall|i: int| 0 <= i < count ==> is_white_space(#[trigger] text[i]),
        count < text.len() ==> !is_white_space(text[count]),
    decreases text.len(),
{
    if text.len() > 0 && is_white_space(text[0]) {
        let rest = text.drop_first();
        let count = lemma_trimmed_start(rest);
        assert(rest.skip(count) =~= text.skip(count + 1));
        assert forall|i: int| 0 <= i < count + 1 implies is_white_space(#[trigger] text[i]) by {
            if i > 0 {
                assert(text[i] == rest[i - 1]);
            }
        }
        count + 1
    } else {
        assert(text.skip(0) =~= text);
        0
    }
}

proof fn lemma_trimmed_end(text: Seq<char>) -> (count: int)
    ensures
        0 <= count <= text.len(),
        trimmed_end(text) == text.take(count),
        forall|i: int| count <= i < text.len() ==> is_white_space(#[trigger] text[i]),
        count > 0 ==> !is_white_space(text[count - 1]),
    decreases text.len(),
{
    if text.len() > 0 && is_white_space(text.last()) {
        let rest = text.drop_last();
        let count = lemma_trimmed_end(rest);
        assert(rest.take(count) =~= text.take(count));
        assert forall|i: int| count <= i < text.len() implies is_white_space(
            #[trigger] text[i],
        ) by {
            if i < rest.len() {
                assert(text[i] == rest[i]);
            }
        }
        count
    } else {
        assert(text.take(text.len() as int) =~= text);
        text.len() as int
    }
}

/// Whether the word stands between `start` and `end` of the text: only white space
/// stands outside, none at its ends, and its letters are those of the text in lower
/// case.
pub open spec fn stands_between(word: Seq<char>, text: Seq<char>, start: int, end: int) -> bool {
    &&& 0 <= start <= end <= text.len()
    &&& word.len() == end - start
    &&& forall|i: int| 0 <= i < start ==> is_white_space(#[trigger] text[i])
    &&& forall|i: int| end <= i < text.len() ==> is_white_space(#[trigger] text[i])
    &&& start < end ==> !is_white_space(text[start]) && !is_white_space(text[end - 1])
    &&& forall|i: int|
        0 <= i < word.len() ==> {
            let letter = text[start + i];
            &&& 'A' <= letter <= 'Z' ==> #[trigger] word[i] as int == letter as int - 'A' as int
                + 'a' as int
            &&& !('A' <= letter <= 'Z') ==> word[i] == letter
        }
}

/// The word of a setting is its text without the white space around it, in lower
/// case.
pub proof fn law_settings_are_trimmed_and_lowered(text: &str, word: Vec<char>)
    requires
        call_ensures(word_of_setting, (text,), word),
    ensures
        exists|start: int, end: int| stands_between(word@, text@, start, end),
{
    let start = lemma_trimmed_start(text@);
    let tail = text@.skip(start);
    let count = lemma_trimmed_end(tail);
    let end = start + count;
    assert forall|i: int| end <= i < text@.len() implies is_white_space(#[trigger] text@[i]) by {
        assert(tail[i - start] == text@[i]);
    }
    if start < end {
        assert(tail[0] == text@[start]);
        assert(tail[count - 1] == text@[end - 1]);
    }
    assert forall|i: int| 0 <= i < word@.len() implies {
        let letter = text@[start + i];
        &&& 'A' <= letter <= 'Z' ==> #[trigger] word@[i] as int == letter as int - 'A' as int
            + 'a' as int
        &&& !('A' <= letter <= 'Z') ==> word@[i] == letter
    } by {
        assert(word@[i] == ascii_lower(tail.take(count)[i]));
        assert(tail.take(count)[i] == text@[start + i]);
    }
    assert(stands_between(word@, text@, start, end));
}

/// A warm mode is selected by its own word and by no other.
pub proof fn law_words_select_warm_modes(
    value: &str,
    word: Vec<char>,
    parsed: Result<CacheWarmMode, String>,
)
    requires
        call_ensures(word_of_setting, (value,), word),
        call_ensures(CacheWarmMode::parse, (value,), parsed),
    ensures
        word@ == "blocking"@ <==> parsed is Ok && parsed->Ok_0 is Blocking,
        word@ == "background"@ <==> parsed is Ok && parsed->Ok_0 is Background,
        word@ == "off"@ <==> parsed is Ok && parsed->Ok_0 is Off,
{
    reveal_strlit("blocking");
    reveal_strlit("background");
    reveal_strlit("off");
    assert("blocking"@.len() == 8 && "background"@.len() == 10 && "off"@.len() == 3);
}

/// A preload level is selected by its own word and by no other, and tells the
/// storage engine to preload nothing, the newest tables or all.
pub proof fn law_words_select_preload_levels(
    value: &str,
    word: Vec<char>,
    parsed: Result<ObjectStoreWarmLevel, String>,
    level: ObjectStoreWarmLevel,
    preload: Option<PreloadLevel>,
)
    requires
        call_ensures(word_of_setting, (value,), word),
        call_ensures(ObjectStoreWarmLevel::parse, (value,), parsed),
        call_ensures(ObjectStoreWarmLevel::to_slate_preload, (level,), preload),
    ensures
        word@ == "off"@ <==> parsed is Ok && parsed->Ok_0 is Off,
        word@ == "l0"@ <==> parsed is Ok && parsed->Ok_0 is L0,
        word@ == "all"@ <==> parsed is Ok && parsed->Ok_0 is All,
        level is Off <==> preload is None,
        level is L0 <==> preload == Some(PreloadLevel::L0Sst),
        level is All <==> preload == Some(PreloadLevel::AllSst),
{
    reveal_strlit("off");
    reveal_strlit("l0");
    reveal_strlit("all");
    assert("off"@.len() == 3 && "l0"@.len() == 2 && "all"@.len() == 3);
    assert("off"@[0] != "all"@[0]);
}

/// Without a setting, warming is done in the background and nothing is preloaded.
pub proof fn law_warm_defaults(mode: CacheWarmMode, level: ObjectStoreWarmLevel)
    requires
        call_ensures(CacheWarmMode::default, (), mode),
        call_ensures(ObjectStoreWarmLevel::default, (), level),
    ensures
        mode is Background,
        level is Off,
{
}

} // verus!
