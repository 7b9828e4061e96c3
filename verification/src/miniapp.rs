use vstd::prelude::*;
use vstd::multiset::Multiset;
use crate::clock;
use crate::text::{
    self, contains_sub, dec_spec, drop_slashes, lower, replace_spec, starts_with_spec, trim_spec,
    upper,
};

verus! {

/// A mini-app reacts to messages it recognises; anything else passes.
pub trait MiniApp {
    fn name(&self) -> &str;

    fn handle(&self, text: &str, user_id: &str, state: &mut AppState) -> Option<String>;

    fn help(&self) -> &str;
}

/// Per-user mini-app state.
pub struct AppState {
    pub scramble: Option<ScrambleState>,
}

impl Default for AppState {
    fn default() -> (r: AppState)
        ensures
            r.scramble is None,
    {
        AppState { scramble: None }
    }
}

/// One running scramble game.
pub struct ScrambleState {
    pub word: String,
    pub scrambled: String,
    pub hints_used: u32,
    pub attempts: u32,
    pub creative_hint: Option<String>,
    pub story: Option<String>,
    pub theme: Option<String>,
}

// ---------------------------------------------------------------------------
// Word and hint tables
// ---------------------------------------------------------------------------

/// The words of the game with their stock hints.
pub open spec fn word_table() -> Seq<(Seq<char>, Seq<char>)> {
    seq![("RUST"@, "Programming language"@), ("TELEGRAM"@, "Messaging app"@), ("PYTHON"@, "Programming language"@), ("ROBOT"@, "Automated machine"@), ("NETWORK"@, "Computer system"@), ("DATABASE"@, "Data storage"@), ("ALGORITHM"@, "Step-by-step procedure"@), ("INTERFACE"@, "User connection"@), ("VARIABLE"@, "Data container"@), ("FUNCTION"@, "Code block"@), ("KEYBOARD"@, "Input device"@), ("MONITOR"@, "Display device"@), ("SOFTWARE"@, "Programs"@), ("HARDWARE"@, "Physical parts"@), ("BROWSER"@, "Web viewer"@)]
}

/// The hand-written creative hints: `(word, first hint, second hint)`.
pub open spec fn hint_table() -> Seq<(Seq<char>, Seq<char>, Seq<char>)> {
    seq![("RUST"@, "It's what old iron becomes, but also a modern programming language!"@, "Fear not the crash, this language is known for safety!"@), ("TELEGRAM"@, "Not the app, but the tool that changed warfare forever at the Somme."@, "It was also a messaging app before there were smartphones!"@), ("PYTHON"@, "A snake? No, it's a popular programming language named after a comedy troupe!"@, "Used by NASA, Netflix, and Instagram!"@), ("ROBOT"@, "It comes from a word meaning 'forced labor' in Czech!"@, "Think Asimov, R2-D2, and ChatGPT's body!"@), ("NETWORK"@, "It's not just social - it's how computers talk to each other!"@, "The internet is the biggest one!"@), ("DATABASE"@, "Where your data goes to be organized - think Oracle or MySQL!"@, "ACID is its middle name!"@), ("ALGORITHM"@, "A recipe, but for computers! Named after a Persian mathematician."@, "Google uses this to rank websites!"@), ("INTERFACE"@, "Where humans meet machines - touchscreens, buttons, or APIs!"@, "UI and UX are its cousins!"@), ("VARIABLE"@, "The 'X' in algebra that computers use to store secrets!"@, "Let, const, and var are its keywords!"@), ("FUNCTION"@, "A reusable code block that does one thing and does it well!"@, "main(), print(), and your custom functions!"@), ("KEYBOARD"@, "Not just for typing - QWERTY was designed to slow you down!"@, "It has 104 keys on a standard one!"@), ("MONITOR"@, "Your window into the digital world - CRT, LED, or OLED!"@, "144Hz means smooth motion!"@), ("SOFTWARE"@, "It's not hard - it's the programs that make hardware dance!"@, "Windows, macOS, and Linux are its families!"@), ("MEMORY"@, "Short-term or long-term - your computer has both!"@, "RAM is volatile, ROM is not!"@), ("BINARY"@, "The language of computers - just 0s and 1s!"@, "It's base-2, not base-10!"@), ("SERVER"@, "A computer that never sleeps, serving data day and night!"@, "The cloud is just someone else's server!"@)]
}

/// The static creative hint for a word: the matching table row's first or
/// second hint, else a stock fallback (the first names the word's length).
pub open spec fn static_hint_spec(word: Seq<char>, hint_num: u32) -> Seq<char> {
    match hint_row(hint_table(), word) {
        Some(row) => if hint_num == 1 {
            row.1
        } else {
            row.2
        },
        None => if hint_num == 1 {
            "A "@ + dec_spec(word.len() as int) + "-letter word related to tech!"@
        } else {
            "Keep trying - it's a common computing term!"@
        },
    }
}

/// The first hint row whose word equals `word` ASCII-case-insensitively.
pub open spec fn hint_row(rows: Seq<(Seq<char>, Seq<char>, Seq<char>)>, word: Seq<char>) -> Option<
    (Seq<char>, Seq<char>, Seq<char>),
>
    decreases rows.len(),
{
    if rows.len() == 0 {
        None
    } else if lower(rows[0].0) == lower(word) {
        Some(rows[0])
    } else {
        hint_row(rows.drop_first(), word)
    }
}

proof fn lemma_hint_row_at(rows: Seq<(Seq<char>, Seq<char>, Seq<char>)>, word: Seq<char>, i: int)
    requires
        0 <= i < rows.len(),
        lower(rows[i].0) == lower(word),
        forall|m: int| 0 <= m < i ==> lower(rows[m].0) != lower(word),
    ensures
        hint_row(rows, word) == Some(rows[i]),
    decreases rows.len(),
{
    if i == 0 {
    } else {
        let t = rows.drop_first();
        assert(forall|m: int| 0 <= m < i - 1 ==> t[m] == rows[m + 1]);
        assert(t[i - 1] == rows[i]);
        lemma_hint_row_at(t, word, i - 1);
    }
}

proof fn lemma_hint_row_missing(rows: Seq<(Seq<char>, Seq<char>, Seq<char>)>, word: Seq<char>)
    requires
        forall|m: int| 0 <= m < rows.len() ==> lower(rows[m].0) != lower(word),
    ensures
        hint_row(rows, word) is None,
    decreases rows.len(),
{
    if rows.len() == 0 {
    } else {
        let t = rows.drop_first();
        assert(forall|m: int| 0 <= m < t.len() ==> t[m] == rows[m + 1]);
        lemma_hint_row_missing(t, word);
    }
}

/// The victory or progress story line.
pub open spec fn story_spec(word: Seq<char>, attempt: u32, correct: bool) -> Seq<char> {
    let masked = Seq::new(word.len(), |i: int| '?');
    if correct {
        "\u{1f389} *Victory!* The word was *"@ + word
            + "*! Your wits are sharp as a coder's! \u{1f9e0}\u{1f4bb}"@
    } else if attempt == 0 {
        "\u{1f4d6} A mysterious word hides in the shadows... Can you uncover *"@ + masked
            + "*? The adventure begins! \u{2728}"@
    } else {
        "\u{1f4d6} The mystery deepens... You've tried "@ + dec_spec(attempt + 1)
            + " time(s). The word *"@ + masked + "* awaits discovery! \u{1f50d}"@
    }
}

// ---------------------------------------------------------------------------
// The scramble game
// ---------------------------------------------------------------------------

/// The scramble word game.
pub struct ScrambleApp {
    words: Vec<(String, String)>,
}

pub open spec fn word_views(v: Seq<(String, String)>) -> Seq<(Seq<char>, Seq<char>)> {
    v.map_values(|r: (String, String)| (r.0@, r.1@))
}

impl ScrambleApp {
    pub closed spec fn words_spec(&self) -> Seq<(Seq<char>, Seq<char>)> {
        word_views(self.words@)
    }

    pub open spec fn wf(&self) -> bool {
        self.words_spec() == word_table()
    }

    #[verifier::type_invariant]
    spec fn type_inv(&self) -> bool {
        self.wf()
    }

    pub fn new() -> (r: ScrambleApp)
        ensures
            r.wf(),
    {
        let mut words: Vec<(String, String)> = Vec::new();
        words.push((String::from_str("RUST"), String::from_str("Programming language")));
        words.push((String::from_str("TELEGRAM"), String::from_str("Messaging app")));
        words.push((String::from_str("PYTHON"), String::from_str("Programming language")));
        words.push((String::from_str("ROBOT"), String::from_str("Automated machine")));
        words.push((String::from_str("NETWORK"), String::from_str("Computer system")));
        words.push((String::from_str("DATABASE"), String::from_str("Data storage")));
        words.push((String::from_str("ALGORITHM"), String::from_str("Step-by-step procedure")));
        words.push((String::from_str("INTERFACE"), String::from_str("User connection")));
        words.push((String::from_str("VARIABLE"), String::from_str("Data container")));
        words.push((String::from_str("FUNCTION"), String::from_str("Code block")));
        words.push((String::from_str("KEYBOARD"), String::from_str("Input device")));
        words.push((String::from_str("MONITOR"), String::from_str("Display device")));
        words.push((String::from_str("SOFTWARE"), String::from_str("Programs")));
        words.push((String::from_str("HARDWARE"), String::from_str("Physical parts")));
        words.push((String::from_str("BROWSER"), String::from_str("Web viewer")));
        proof {
            assert(word_views(words@) =~~= word_table());
        }
        ScrambleApp { words }
    }

    /// Shuffle the word's characters, seeding the shuffle from the clock;
    /// the result is a permutation of the word.
    pub fn scramble_word(word: &str) -> (r: String)
        ensures
            r@.to_multiset() == word@.to_multiset(),
            r@.len() == word@.len(),
    {
        let seed = clock::time_entropy();
        let mut src = text::chars_of(word);
        let mut out: Vec<char> = Vec::new();
        proof {
            broadcast use vstd::seq_lib::group_to_multiset_ensures;

            assert(out@.to_multiset().add(src@.to_multiset()) =~= word@.to_multiset());
        }
        while src.len() > 0
            invariant
                out@.to_multiset().add(src@.to_multiset()) == word@.to_multiset(),
                out@.len() + src@.len() == word@.len(),
            decreases src@.len(),
        {
            let j: usize = (seed as usize).wrapping_add(out.len().wrapping_mul(31)) % src.len();
            let ghost prev_out = out@;
            let ghost prev_src = src@;
            let c = src.remove(j);
            out.push(c);
            proof {
                broadcast use vstd::seq_lib::group_to_multiset_ensures;

                assert(src@.to_multiset() =~= prev_src.to_multiset().remove(c));
                assert(out@.to_multiset() =~= prev_out.to_multiset().insert(c));
                assert(prev_src.to_multiset().count(c) > 0);
                assert(out@.to_multiset().add(src@.to_multiset()) =~= prev_out.to_multiset().add(
                    prev_src.to_multiset(),
                ));
            }
        }
        proof {
            broadcast use vstd::seq_lib::group_to_multiset_ensures;

            assert(src@.to_multiset() =~= Multiset::<char>::empty());
            assert(out@.to_multiset() =~= word@.to_multiset());
        }
        let wv = text::chars_of(word);
        if out.len() > 1 && text::eq_chars(&out, &wv) {
            // still spelled like the word: rotate the first character away
            let ghost before = out@;
            let c0 = out.remove(0);
            out.push(c0);
            proof {
                broadcast use vstd::seq_lib::group_to_multiset_ensures;

                assert(out@.to_multiset() =~= before.to_multiset().remove(c0).insert(c0));
                assert(before.to_multiset().count(c0) > 0);
                assert(out@.to_multiset() =~= before.to_multiset());
            }
        }
        text::string_of(&out)
    }

    /// A model-generated word; no model is wired in, so nothing comes back.
    pub fn generate_word_llm(&self) -> (r: Option<(String, String, String)>)
        ensures
            r is None,
    {
        None
    }

    /// A model-generated creative hint; no model is wired in.
    pub fn generate_creative_hint_llm(word: &str, hint_num: u32, theme: Option<&str>) -> (r:
        Option<String>)
        ensures
            r is None,
    {
        None
    }

    /// A model-generated story line; no model is wired in.
    pub fn generate_story_llm(word: &str, attempt: u32, correct: bool) -> (r: Option<String>)
        ensures
            r is None,
    {
        None
    }

    /// The stock creative hint for a word.
    pub fn generate_creative_hint_static(word: &str, hint_num: u32) -> (r: String)
        ensures
            r@ == static_hint_spec(word@, hint_num),
    {
        let rows = hint_row_list();
        let wv = text::chars_of(word);
        let wl = text::ascii_lower(&wv);
        let n: usize = rows.len();
        let mut i: usize = 0;
        while i < n
            invariant
                i <= n,
                n == rows@.len(),
                wl@ == lower(word@),
                hint_views(rows@) == hint_table(),
                forall|m: int| 0 <= m < i ==> lower(hint_table()[m].0) != lower(word@),
            decreases n - i,
        {
            let cv = text::chars_of(rows[i].0.as_str());
            let cl = text::ascii_lower(&cv);
            if text::eq_chars(&cl, &wl) {
                proof {
                    assert(hint_table()[i as int] == hint_views(rows@)[i as int]);
                    lemma_hint_row_at(hint_table(), word@, i as int);
                }
                if hint_num == 1 {
                    return rows[i].1.clone();
                } else {
                    return rows[i].2.clone();
                }
            }
            proof {
                assert(hint_table()[i as int] == hint_views(rows@)[i as int]);
            }
            i = i + 1;
        }
        proof {
            lemma_hint_row_missing(hint_table(), word@);
        }
        if hint_num == 1 {
            let mut r = String::from_str("A ");
            let d = text::dec_string(wv.len() as u64);
            r.append(d.as_str());
            r.append("-letter word related to tech!");
            r
        } else {
            String::from_str("Keep trying - it's a common computing term!")
        }
    }

    /// The stock story line for the given progress.
    pub fn generate_static_story(word: &str, attempt: u32, correct: bool) -> (r: String)
        ensures
            r@ == story_spec(word@, attempt, correct),
    {
        let wv = text::chars_of(word);
        if correct {
            let mut r = String::from_str("\u{1f389} *Victory!* The word was *");
            r.append(word);
            r.append("*! Your wits are sharp as a coder's! \u{1f9e0}\u{1f4bb}");
            r
        } else if attempt == 0 {
            let masked = text::repeat_char('?', wv.len());
            let ms = text::string_of(&masked);
            let mut r = String::from_str(
                "\u{1f4d6} A mysterious word hides in the shadows... Can you uncover *",
            );
            r.append(ms.as_str());
            r.append("*? The adventure begins! \u{2728}");
            r
        } else {
            let masked = text::repeat_char('?', wv.len());
            let ms = text::string_of(&masked);
            let mut r = String::from_str("\u{1f4d6} The mystery deepens... You've tried ");
            let d = text::dec_string(attempt as u64 + 1);
            r.append(d.as_str());
            r.append(" time(s). The word *");
            r.append(ms.as_str());
            r.append("* awaits discovery! \u{1f50d}");
            r
        }
    }
}

pub open spec fn hint_views(v: Seq<(String, String, String)>) -> Seq<
    (Seq<char>, Seq<char>, Seq<char>),
> {
    v.map_values(|r: (String, String, String)| (r.0@, r.1@, r.2@))
}

fn hint_row_list() -> (r: Vec<(String, String, String)>)
    ensures
        hint_views(r@) == hint_table(),
{
    let mut r: Vec<(String, String, String)> = Vec::new();
    r.push((String::from_str("RUST"), String::from_str("It's what old iron becomes, but also a modern programming language!"), String::from_str("Fear not the crash, this language is known for safety!")));
    r.push((String::from_str("TELEGRAM"), String::from_str("Not the app, but the tool that changed warfare forever at the Somme."), String::from_str("It was also a messaging app before there were smartphones!")));
    r.push((String::from_str("PYTHON"), String::from_str("A snake? No, it's a popular programming language named after a comedy troupe!"), String::from_str("Used by NASA, Netflix, and Instagram!")));
    r.push((String::from_str("ROBOT"), String::from_str("It comes from a word meaning 'forced labor' in Czech!"), String::from_str("Think Asimov, R2-D2, and ChatGPT's body!")));
    r.push((String::from_str("NETWORK"), String::from_str("It's not just social - it's how computers talk to each other!"), String::from_str("The internet is the biggest one!")));
    r.push((String::from_str("DATABASE"), String::from_str("Where your data goes to be organized - think Oracle or MySQL!"), String::from_str("ACID is its middle name!")));
    r.push((String::from_str("ALGORITHM"), String::from_str("A recipe, but for computers! Named after a Persian mathematician."), String::from_str("Google uses this to rank websites!")));
    r.push((String::from_str("INTERFACE"), String::from_str("Where humans meet machines - touchscreens, buttons, or APIs!"), String::from_str("UI and UX are its cousins!")));
    r.push((String::from_str("VARIABLE"), String::from_str("The 'X' in algebra that computers use to store secrets!"), String::from_str("Let, const, and var are its keywords!")));
    r.push((String::from_str("FUNCTION"), String::from_str("A reusable code block that does one thing and does it well!"), String::from_str("main(), print(), and your custom functions!")));
    r.push((String::from_str("KEYBOARD"), String::from_str("Not just for typing - QWERTY was designed to slow you down!"), String::from_str("It has 104 keys on a standard one!")));
    r.push((String::from_str("MONITOR"), String::from_str("Your window into the digital world - CRT, LED, or OLED!"), String::from_str("144Hz means smooth motion!")));
    r.push((String::from_str("SOFTWARE"), String::from_str("It's not hard - it's the programs that make hardware dance!"), String::from_str("Windows, macOS, and Linux are its families!")));
    r.push((String::from_str("MEMORY"), String::from_str("Short-term or long-term - your computer has both!"), String::from_str("RAM is volatile, ROM is not!")));
    r.push((String::from_str("BINARY"), String::from_str("The language of computers - just 0s and 1s!"), String::from_str("It's base-2, not base-10!")));
    r.push((String::from_str("SERVER"), String::from_str("A computer that never sleeps, serving data day and night!"), String::from_str("The cloud is just someone else's server!")));
    proof {
        assert(hint_views(r@) =~~= hint_table());
    }
    r
}


// ---------------------------------------------------------------------------
// Game dialogue
// ---------------------------------------------------------------------------

pub open spec fn no_game_text() -> Seq<char> {
    "\u{1f3ae} No active game!\n\nUse /scramble to start a new game."@
}

pub open spec fn game_text(story_part: Seq<char>, scrambled: Seq<char>) -> Seq<char> {
    "\u{1f3ae} *Scramble Game!*_"@ + story_part + "\n\nUnscramble this word:\n*`"@ + scrambled
        + "`*\n\nReply with your guess or /hint for help."@
}

pub open spec fn bump(n: u32) -> u32 {
    if n == u32::MAX {
        0
    } else {
        (n + 1) as u32
    }
}

/// A freshly started game over `word`, with an optional story line.
pub open spec fn fresh_game(g: &ScrambleState, word: Seq<char>, story: Option<Seq<char>>) -> bool {
    &&& g.word@ == word
    &&& g.scrambled@.to_multiset() == word.to_multiset()
    &&& g.hints_used == 0
    &&& g.attempts == 0
    &&& g.creative_hint is None
    &&& (match story {
        Some(st) => g.story matches Some(x) && x@ == st,
        None => g.story is None,
    })
    &&& g.theme is None
}

/// What one scramble exchange does: the reply and the new game state, as a
/// function of the text and the old state (up to the shuffled letters).
pub open spec fn handle_spec(
    text: Seq<char>,
    old_game: Option<ScrambleState>,
    new_game: Option<ScrambleState>,
    ret: Option<String>,
) -> bool {
    let lowered = lower(text);
    let cmd = drop_slashes(lowered);
    let game_cmd = starts_with_spec(cmd, "hint"@) || starts_with_spec(cmd, "guess"@)
        || starts_with_spec(cmd, "quit"@);
    if game_cmd && old_game is None {
        new_game is None && (ret matches Some(t) && t@ == no_game_text())
    } else if starts_with_spec(cmd, "scramble"@) || contains_sub(lowered, "play scramble"@)
        || contains_sub(lowered, "main scramble"@) {
        exists|idx: int|
            0 <= idx < word_table().len() && (new_game matches Some(g) && {
                let word = (#[trigger] word_table()[idx]).0;
                let story = if contains_sub(lowered, "story"@) {
                    Some(story_spec(word, 0, false))
                } else {
                    None
                };
                let story_part = if contains_sub(lowered, "story"@) {
                    "\n\n\u{1f4d6} *Story Mode:* "@ + story_spec(word, 0, false)
                } else {
                    Seq::<char>::empty()
                };
                fresh_game(&g, word, story) && (ret matches Some(t) && t@ == game_text(
                    story_part,
                    g.scrambled@,
                ))
            })
    } else {
        match old_game {
            Some(g) => {
                if starts_with_spec(cmd, "hint"@) {
                    if g.hints_used < 2 {
                        let hu = bump(g.hints_used);
                        let hint = match g.creative_hint {
                            Some(h) => h@,
                            None => static_hint_spec(g.word@, hu),
                        };
                        let revealed = Seq::new(
                            g.word@.len(),
                            |i: int|
                                if i < hu as int {
                                    '_'
                                } else {
                                    g.word@[i]
                                },
                        );
                        let story_msg = match g.story {
                            Some(st) => if hu == 1 {
                                "\n\n\u{1f4d6} *Story continues:* "@ + st@
                            } else {
                                Seq::<char>::empty()
                            },
                            None => Seq::<char>::empty(),
                        };
                        (new_game matches Some(g2) && g2.word == g.word && g2.scrambled
                            == g.scrambled && g2.hints_used == hu && g2.attempts == bump(
                            g.attempts,
                        ) && g2.creative_hint == g.creative_hint && g2.story == g.story
                            && g2.theme == g.theme) && (ret matches Some(t) && t@ == "\u{1f4a1} Hint "@
                            + dec_spec(hu as int) + ": *"@ + hint + "*\n\nWord: *"@ + revealed
                            + "*\n\nScrambled: `"@ + g.scrambled@ + "`"@ + story_msg)
                    } else {
                        new_game == old_game && (ret matches Some(t) && t@
                            == "\u{274c} No more hints available!"@)
                    }
                } else if starts_with_spec(cmd, "guess"@) {
                    let guess = upper(
                        trim_spec(
                            replace_spec(
                                replace_spec(text, "/guess"@, Seq::<char>::empty()),
                                "guess"@,
                                Seq::<char>::empty(),
                            ),
                        ),
                    );
                    let att = bump(g.attempts);
                    if guess == g.word@ {
                        new_game is None && (ret matches Some(t) && t@
                            == "\u{1f389} *Correct!*\n\nThe word was *"@ + g.word@
                            + "*\nYou guessed in *"@ + dec_spec(att as int) + "* attempt(s)!"@)
                    } else {
                        (new_game matches Some(g2) && g2.word == g.word && g2.scrambled
                            == g.scrambled && g2.hints_used == g.hints_used && g2.attempts == att
                            && g2.creative_hint == g.creative_hint && g2.story == g.story
                            && g2.theme == g.theme) && (ret matches Some(t) && t@
                            == "\u{274c} Wrong! Try again.\nAttempts: *"@ + dec_spec(att as int)
                            + "*\nScrambled: `"@ + g.scrambled@ + "`"@)
                    }
                } else if starts_with_spec(cmd, "quit"@) || contains_sub(lowered, "quit game"@) {
                    new_game is None && (ret matches Some(t) && t@
                        == "\u{1f44b} Game ended. Thanks for playing!"@)
                } else if starts_with_spec(cmd, "scramble"@) || lowered == "status"@ {
                    new_game == old_game && (ret matches Some(t) && t@
                        == "\u{1f4ca} Game Status\n\nScrambled: *"@ + g.scrambled@
                        + "*\nAttempts: "@ + dec_spec(g.attempts as int) + "\nHints used: "@
                        + dec_spec(g.hints_used as int) + "/2\n\nUse /guess [word] to answer!"@)
                } else {
                    new_game == old_game && ret is None
                }
            },
            None => new_game is None && ret is None,
        }
    }
}

impl MiniApp for ScrambleApp {
    fn name(&self) -> &str {
        "scramble"
    }

    fn help(&self) -> &str {
        "\u{1f3ae} Scramble Game\n\nUnscramble the letters to find the word!\n\u{2022} /scramble - Start new game\n\u{2022} /hint - Get a hint (max 2)\n\u{2022} /guess [word] - Guess the answer\n\u{2022} /quit - Quit game"
    }

    fn handle(&self, text: &str, user_id: &str, state: &mut AppState) -> Option<String> {
        self.respond(text, user_id, state)
    }
}

impl ScrambleApp {
    /// One scramble exchange, exactly as `handle_spec` describes it.
    pub fn respond(&self, text: &str, _user_id: &str, state: &mut AppState) -> (r: Option<
        String,
    >)
        ensures
            handle_spec(text@, old(state).scramble, final(state).scramble, r),
    {
        proof {
            use_type_invariant(self);
        }
        let tv = text::chars_of(text);
        let lowered = text::ascii_lower(&tv);
        let cmd = text::trim_slashes(&lowered);
        let hint_p = text::chars_of("hint");
        let guess_p = text::chars_of("guess");
        let quit_p = text::chars_of("quit");
        let scramble_p = text::chars_of("scramble");
        let starts_hint = text::starts_with_chars(&cmd, &hint_p);
        let starts_guess = text::starts_with_chars(&cmd, &guess_p);
        let starts_quit = text::starts_with_chars(&cmd, &quit_p);
        let starts_scramble = text::starts_with_chars(&cmd, &scramble_p);
        let play_p = text::chars_of("play scramble");
        let main_p = text::chars_of("main scramble");
        let story_p = text::chars_of("story");
        let game_cmd = starts_hint || starts_guess || starts_quit;
        let no_game = match &state.scramble {
            Some(_) => false,
            None => true,
        };
        if game_cmd && no_game {
            return Some(
                String::from_str(
                    "\u{1f3ae} No active game!\n\nUse /scramble to start a new game.",
                ),
            );
        }
        if starts_scramble || text::contains_chars(&lowered, &play_p) || text::contains_chars(
            &lowered,
            &main_p,
        ) {
            let n: usize = self.words.len();
            proof {
                assert(self.words_spec().len() == word_table().len());
            }
            let idx: usize = rand_index(n);
            let word = self.words[idx].0.clone();
            let scrambled = Self::scramble_word(word.as_str());
            let with_story = text::contains_chars(&lowered, &story_p);
            let story: Option<String> = if with_story {
                Some(Self::generate_static_story(word.as_str(), 0, false))
            } else {
                None
            };
            let mut story_part = String::new();
            match &story {
                Some(st) => {
                    story_part.append("\n\n\u{1f4d6} *Story Mode:* ");
                    story_part.append(st.as_str());
                },
                None => {},
            }
            let mut reply = String::from_str("\u{1f3ae} *Scramble Game!*_");
            reply.append(story_part.as_str());
            reply.append("\n\nUnscramble this word:\n*`");
            reply.append(scrambled.as_str());
            reply.append("`*\n\nReply with your guess or /hint for help.");
            let ghost gw = word@;
            let ghost gs = scrambled@;
            state.scramble = Some(
                ScrambleState {
                    word,
                    scrambled,
                    hints_used: 0,
                    attempts: 0,
                    creative_hint: None,
                    story,
                    theme: None,
                },
            );
            proof {
                assert(self.words_spec()[idx as int] == word_table()[idx as int]);
                let lw = lower(text@);
                let w = (#[trigger] word_table()[idx as int]).0;
                assert(gw == w);
                let sp = if contains_sub(lw, "story"@) {
                    "\n\n\u{1f4d6} *Story Mode:* "@ + story_spec(w, 0, false)
                } else {
                    Seq::<char>::empty()
                };
                assert(story_part@ == sp);
                assert(reply@ =~= game_text(sp, gs));
            }
            return Some(reply);
        }
        let mut taken: Option<ScrambleState> = None;
        core::mem::swap(&mut taken, &mut state.scramble);
        match taken {
            None => None,
            Some(game) => {
                let ghost g0 = game;
                if starts_hint {
                    if game.hints_used < 2 {
                        let hu = game.hints_used.wrapping_add(1);
                        let att = game.attempts.wrapping_add(1);
                        let hint: String = match &game.creative_hint {
                            Some(h) => h.clone(),
                            None => Self::generate_creative_hint_static(game.word.as_str(), hu),
                        };
                        let wv = text::chars_of(game.word.as_str());
                        let mut revealed: Vec<char> = Vec::new();
                        let wn: usize = wv.len();
                        let mut i: usize = 0;
                        while i < wn
                            invariant
                                i <= wn,
                                wn == wv@.len(),
                                wv@ == game.word@,
                                revealed@ == Seq::new(
                                    i as nat,
                                    |m: int|
                                        if m < hu as int {
                                            '_'
                                        } else {
                                            game.word@[m]
                                        },
                                ),
                            decreases wn - i,
                        {
                            if (i as u64) < (hu as u64) {
                                revealed.push('_');
                            } else {
                                revealed.push(wv[i]);
                            }
                            i = i + 1;
                            proof {
                                assert(revealed@ =~= Seq::new(
                                    i as nat,
                                    |m: int|
                                        if m < hu as int {
                                            '_'
                                        } else {
                                            game.word@[m]
                                        },
                                ));
                            }
                        }
                        let revealed_s = text::string_of(&revealed);
                        let mut story_msg = String::new();
                        match &game.story {
                            Some(st) => {
                                if hu == 1 {
                                    story_msg.append("\n\n\u{1f4d6} *Story continues:* ");
                                    story_msg.append(st.as_str());
                                }
                            },
                            None => {},
                        }
                        let mut reply = String::from_str("\u{1f4a1} Hint ");
                        let d = text::dec_string(hu as u64);
                        reply.append(d.as_str());
                        reply.append(": *");
                        reply.append(hint.as_str());
                        reply.append("*\n\nWord: *");
                        reply.append(revealed_s.as_str());
                        reply.append("*\n\nScrambled: `");
                        reply.append(game.scrambled.as_str());
                        reply.append("`");
                        reply.append(story_msg.as_str());
                        proof {
                            let hint_s = match g0.creative_hint {
                                Some(h) => h@,
                                None => static_hint_spec(g0.word@, hu),
                            };
                            let revealed_spec = Seq::new(
                                g0.word@.len(),
                                |m: int|
                                    if m < hu as int {
                                        '_'
                                    } else {
                                        g0.word@[m]
                                    },
                            );
                            let story_spec_msg = match g0.story {
                                Some(st) => if hu == 1 {
                                    "\n\n\u{1f4d6} *Story continues:* "@ + st@
                                } else {
                                    Seq::<char>::empty()
                                },
                                None => Seq::<char>::empty(),
                            };
                            assert(revealed@ =~= revealed_spec);
                            assert(story_msg@ =~= story_spec_msg);
                            assert(reply@ =~= "\u{1f4a1} Hint "@ + dec_spec(hu as int) + ": *"@
                                + hint_s + "*\n\nWord: *"@ + revealed_spec + "*\n\nScrambled: `"@
                                + g0.scrambled@ + "`"@ + story_spec_msg);
                        }
                        state.scramble = Some(
                            ScrambleState { hints_used: hu, attempts: att, ..game },
                        );
                        let out: Option<String> = Some(reply);
                        proof {
                            assert(handle_spec(text@, old(state).scramble, state.scramble, out));
                        }
                        out
                    } else {
                        state.scramble = Some(game);
                        let out: Option<String> = Some(
                            String::from_str("\u{274c} No more hints available!"),
                        );
                        proof {
                            assert(handle_spec(text@, old(state).scramble, state.scramble, out));
                        }
                        out
                    }
                } else if starts_guess {
                    let slash_guess = text::chars_of("/guess");
                    let bare_guess = text::chars_of("guess");
                    let empty: Vec<char> = Vec::new();
                    proof {
                        reveal_strlit("/guess");
                        reveal_strlit("guess");
                    }
                    let step1 = text::replace_chars(&tv, &slash_guess, &empty);
                    let step2 = text::replace_chars(&step1, &bare_guess, &empty);
                    let trimmed = text::trim_chars(&step2);
                    let guess = text::ascii_upper(&trimmed);
                    let att = game.attempts.wrapping_add(1);
                    let gw = text::chars_of(game.word.as_str());
                    if text::eq_chars(&guess, &gw) {
                        let mut reply = String::from_str(
                            "\u{1f389} *Correct!*\n\nThe word was *",
                        );
                        reply.append(game.word.as_str());
                        reply.append("*\nYou guessed in *");
                        let d = text::dec_string(att as u64);
                        reply.append(d.as_str());
                        reply.append("* attempt(s)!");
                        proof {
                            assert(reply@ =~= "\u{1f389} *Correct!*\n\nThe word was *"@
                                + g0.word@ + "*\nYou guessed in *"@ + dec_spec(att as int)
                                + "* attempt(s)!"@);
                        }
                        let out: Option<String> = Some(reply);
                        proof {
                            assert(handle_spec(text@, old(state).scramble, state.scramble, out));
                        }
                        out
                    } else {
                        let mut reply = String::from_str(
                            "\u{274c} Wrong! Try again.\nAttempts: *",
                        );
                        let d = text::dec_string(att as u64);
                        reply.append(d.as_str());
                        reply.append("*\nScrambled: `");
                        reply.append(game.scrambled.as_str());
                        reply.append("`");
                        proof {
                            assert(reply@ =~= "\u{274c} Wrong! Try again.\nAttempts: *"@
                                + dec_spec(att as int) + "*\nScrambled: `"@ + g0.scrambled@
                                + "`"@);
                        }
                        state.scramble = Some(ScrambleState { attempts: att, ..game });
                        let out: Option<String> = Some(reply);
                        proof {
                            assert(handle_spec(text@, old(state).scramble, state.scramble, out));
                        }
                        out
                    }
                } else if starts_quit || {
                    let quit_game_p = text::chars_of("quit game");
                    text::contains_chars(&lowered, &quit_game_p)
                } {
                    let out: Option<String> = Some(
                        String::from_str("\u{1f44b} Game ended. Thanks for playing!"),
                    );
                    proof {
                        assert(handle_spec(text@, old(state).scramble, state.scramble, out));
                    }
                    out
                } else if starts_scramble || {
                    let status_p = text::chars_of("status");
                    text::eq_chars(&lowered, &status_p)
                } {
                    let mut reply = String::from_str(
                        "\u{1f4ca} Game Status\n\nScrambled: *",
                    );
                    reply.append(game.scrambled.as_str());
                    reply.append("*\nAttempts: ");
                    let d1 = text::dec_string(game.attempts as u64);
                    reply.append(d1.as_str());
                    reply.append("\nHints used: ");
                    let d2 = text::dec_string(game.hints_used as u64);
                    reply.append(d2.as_str());
                    reply.append("/2\n\nUse /guess [word] to answer!");
                    proof {
                        assert(reply@ =~= "\u{1f4ca} Game Status\n\nScrambled: *"@
                            + g0.scrambled@ + "*\nAttempts: "@ + dec_spec(g0.attempts as int)
                            + "\nHints used: "@ + dec_spec(g0.hints_used as int)
                            + "/2\n\nUse /guess [word] to answer!"@);
                    }
                    state.scramble = Some(game);
                    let out: Option<String> = Some(reply);
                    proof {
                        assert(handle_spec(text@, old(state).scramble, state.scramble, out));
                    }
                    out
                } else {
                    state.scramble = Some(game);
                    proof {
                        assert(handle_spec(
                            text@,
                            old(state).scramble,
                            state.scramble,
                            None::<String>,
                        ));
                    }
                    None
                }
            },
        }
    }
}

/// An index below `max`, drawn from the clock's sub-second reading.
pub fn rand_index(max: usize) -> (r: usize)
    requires
        max > 0,
    ensures
        r < max,
{
    (clock::time_entropy() as usize) % max
}

/// Dispatches game-flavoured messages to the registered mini-apps.
pub struct MiniAppManager {
    apps: Vec<ScrambleApp>,
}

impl MiniAppManager {
    pub closed spec fn app_count(&self) -> int {
        self.apps@.len() as int
    }

    pub closed spec fn apps_wf(&self) -> bool {
        forall|i: int| 0 <= i < self.apps@.len() ==> self.apps@[i].wf()
    }

    pub open spec fn wf(&self) -> bool {
        self.apps_wf() && self.app_count() == 1
    }

    /// Starts with the scramble game registered.
    pub fn new() -> (r: MiniAppManager)
        ensures
            r.wf(),
    {
        let mut manager = MiniAppManager { apps: Vec::new() };
        manager.register(ScrambleApp::new());
        manager
    }

    fn register(&mut self, app: ScrambleApp)
        ensures
            final(self).apps@ == old(self).apps@.push(app),
    {
        self.apps.push(app);
    }

    /// Hand the message to the first mini-app when it carries a game word
    /// or a game command; otherwise nobody answers and nothing changes.
    pub fn handle(&self, text: &str, user_id: &str, state: &mut AppState) -> (r: Option<String>)
        requires
            self.wf(),
        ensures
            ({
                let lowered = lower(text@);
                let cmd = drop_slashes(lowered);
                if contains_sub(lowered, "scramble"@) || starts_with_spec(cmd, "scramble"@)
                    || starts_with_spec(cmd, "hint"@) || starts_with_spec(cmd, "guess"@)
                    || starts_with_spec(cmd, "quit"@) {
                    handle_spec(text@, old(state).scramble, final(state).scramble, r)
                } else {
                    final(state).scramble == old(state).scramble && r is None
                }
            }),
    {
        let tv = text::chars_of(text);
        let lowered = text::ascii_lower(&tv);
        let cmd = text::trim_slashes(&lowered);
        let scramble_p = text::chars_of("scramble");
        let hint_p = text::chars_of("hint");
        let guess_p = text::chars_of("guess");
        let quit_p = text::chars_of("quit");
        if text::contains_chars(&lowered, &scramble_p) || text::starts_with_chars(
            &cmd,
            &scramble_p,
        ) || text::starts_with_chars(&cmd, &hint_p) || text::starts_with_chars(&cmd, &guess_p)
            || text::starts_with_chars(&cmd, &quit_p) {
            let app = &self.apps[0];
            return app.respond(text, user_id, state);
        }
        None
    }
}

} // verus!
