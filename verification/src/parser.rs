//! The phrase parser: turns one raw input line into a [`Command`].
//!
//! The pipeline has three steps, each with a spec-level counterpart that the
//! executable code is proved to implement:
//! 1. normalize — split on whitespace, lowercase, drop stop-words
//!    ([`words_of`], [`lower_str`], [`clean_words`]);
//! 2. classify — the first word is a verb or a direction, later words are
//!    prepositions, directions or object words ([`tokens_of`]);
//! 3. assemble — a deterministic state machine concatenates consecutive
//!    object words into phrases ([`parse_tokens_spec`] and friends).

use vstd::prelude::*;
use vstd::string::*;
use crate::command::{Command, CommandV};
use crate::util::str_eq;

verus! {

/// Words dropped during normalization: articles and filler words.
pub open spec fn is_helper_word(w: Seq<char>) -> bool {
    ||| w == "a"@
    ||| w == "an"@
    ||| w == "the"@
    ||| w == "at"@
    ||| w == "to"@
    ||| w == "go"@
    ||| w == "of"@
}

/// The closed set of prepositions the grammar recognizes.
pub open spec fn is_preposition(w: Seq<char>) -> bool {
    ||| w == "in"@
    ||| w == "into"@
    ||| w == "for"@
    ||| w == "inside"@
}

/// The eight direction tokens (full names and abbreviations).
pub open spec fn is_direction(w: Seq<char>) -> bool {
    ||| w == "north"@
    ||| w == "n"@
    ||| w == "south"@
    ||| w == "s"@
    ||| w == "east"@
    ||| w == "e"@
    ||| w == "west"@
    ||| w == "w"@
}

/// A word that the classifier turns into an object word.
pub open spec fn is_object_word(w: Seq<char>) -> bool {
    !is_preposition(w) && !is_direction(w)
}

fn word_is_helper(w: &str) -> (r: bool)
    ensures
        r == is_helper_word(w@),
{
    str_eq(w, "a") || str_eq(w, "an") || str_eq(w, "the") || str_eq(w, "at") || str_eq(w, "to")
        || str_eq(w, "go") || str_eq(w, "of")
}

fn word_is_preposition(w: &str) -> (r: bool)
    ensures
        r == is_preposition(w@),
{
    str_eq(w, "in") || str_eq(w, "into") || str_eq(w, "for") || str_eq(w, "inside")
}

/// True exactly when `w` is one of the eight direction tokens.
pub fn word_is_direction(w: &str) -> (r: bool)
    ensures
        r == is_direction(w@),
{
    str_eq(w, "north") || str_eq(w, "n") || str_eq(w, "south") || str_eq(w, "s") || str_eq(
        w,
        "east",
    ) || str_eq(w, "e") || str_eq(w, "west") || str_eq(w, "w")
}

/// ASCII lowercasing of a single character; other characters pass unchanged.
pub open spec fn lower_char(c: char) -> char {
    if 'A' <= c && c <= 'Z' {
        ((c as u8) + 32) as char
    } else {
        c
    }
}

/// ASCII lowercasing of a character sequence.
pub open spec fn lower_str(s: Seq<char>) -> Seq<char> {
    s.map_values(|c: char| lower_char(c))
}

fn to_lower_char(c: char) -> (r: char)
    ensures
        r == lower_char(c),
{
    if 'A' <= c && c <= 'Z' {
        ((c as u8) + 32) as char
    } else {
        c
    }
}

fn to_lower(s: &str) -> (r: String)
    ensures
        r@ == lower_str(s@),
{
    let n = s.unicode_len();
    let mut out = String::new();
    let mut i: usize = 0;
    while i < n
        invariant
            n == s@.len(),
            i <= n,
            out@ == lower_str(s@.take(i as int)),
        decreases n - i,
    {
        let c = to_lower_char(s.get_char(i));
        out.push(c);
        proof {
            assert(s@.take(i + 1).drop_last() =~= s@.take(i as int));
            assert(lower_str(s@.take(i + 1)) =~= lower_str(s@.take(i as int)).push(
                lower_char(s@[i as int]),
            ));
        }
        i += 1;
    }
    proof {
        assert(s@.take(n as int) =~= s@);
    }
    out
}

/// The whitespace characters that separate words.
pub open spec fn is_space(c: char) -> bool {
    c == ' ' || c == '\t' || c == '\n' || c == '\r'
}

fn is_space_char(c: char) -> (r: bool)
    ensures
        r == is_space(c),
{
    c == ' ' || c == '\t' || c == '\n' || c == '\r'
}

/// One step of the word splitter: the accumulator holds the finished words and
/// the word being built.
pub open spec fn split_step(acc: (Seq<Seq<char>>, Seq<char>), c: char) -> (Seq<Seq<char>>, Seq<
    char,
>) {
    if is_space(c) {
        if acc.1.len() > 0 {
            (acc.0.push(acc.1), Seq::empty())
        } else {
            acc
        }
    } else {
        (acc.0, acc.1.push(c))
    }
}

/// The splitter state after reading all of `s`.
pub open spec fn split_state(s: Seq<char>) -> (Seq<Seq<char>>, Seq<char>)
    decreases s.len(),
{
    if s.len() == 0 {
        (Seq::empty(), Seq::empty())
    } else {
        split_step(split_state(s.drop_last()), s.last())
    }
}

/// The whitespace-separated words of `s`, in order, each non-empty.
pub open spec fn words_of(s: Seq<char>) -> Seq<Seq<char>> {
    let (ws, cur) = split_state(s);
    if cur.len() > 0 {
        ws.push(cur)
    } else {
        ws
    }
}

fn split_words(s: &str) -> (r: Vec<String>)
    ensures
        r.deep_view() == words_of(s@),
{
    let n = s.unicode_len();
    let mut words: Vec<String> = Vec::new();
    let mut cur = String::new();
    let mut i: usize = 0;
    while i < n
        invariant
            n == s@.len(),
            i <= n,
            (words.deep_view(), cur@) == split_state(s@.take(i as int)),
        decreases n - i,
    {
        let c = s.get_char(i);
        proof {
            assert(s@.take(i + 1).drop_last() =~= s@.take(i as int));
            assert(s@.take(i + 1).last() == s@[i as int]);
        }
        if is_space_char(c) {
            if !cur.as_str().is_empty() {
                let finished = cur;
                cur = String::new();
                words.push(finished);
                proof {
                    assert(words.deep_view() =~= split_state(s@.take(i as int)).0.push(
                        finished@,
                    ));
                }
            }
        } else {
            cur.push(c);
        }
        i += 1;
    }
    proof {
        assert(s@.take(n as int) =~= s@);
    }
    if !cur.as_str().is_empty() {
        let ghost before = words.deep_view();
        words.push(cur);
        proof {
            assert(words.deep_view() =~= before.push(cur@));
        }
    }
    words
}

/// Lowercase every word.
pub open spec fn lower_words(ws: Seq<Seq<char>>) -> Seq<Seq<char>> {
    ws.map_values(|w: Seq<char>| lower_str(w))
}

/// Drop the stop-words.
pub open spec fn drop_helpers(ws: Seq<Seq<char>>) -> Seq<Seq<char>> {
    ws.filter(|w: Seq<char>| !is_helper_word(w))
}

/// The normalized word list: lowercased, stop-words removed.
pub open spec fn clean_words(ws: Seq<Seq<char>>) -> Seq<Seq<char>> {
    drop_helpers(lower_words(ws))
}

/// A classified word of the input line.
#[derive(Debug, Clone)]
pub enum Token {
    Verb { value: String },
    Object { value: String },
    Preposition { value: String },
    Direction { value: String },
    Eof,
}

/// The mathematical value of a [`Token`].
pub enum TokenV {
    Verb(Seq<char>),
    Object(Seq<char>),
    Preposition(Seq<char>),
    Direction(Seq<char>),
    Eof,
}

impl View for Token {
    type V = TokenV;

    open spec fn view(&self) -> TokenV {
        match self {
            Token::Verb { value } => TokenV::Verb(value@),
            Token::Object { value } => TokenV::Object(value@),
            Token::Preposition { value } => TokenV::Preposition(value@),
            Token::Direction { value } => TokenV::Direction(value@),
            Token::Eof => TokenV::Eof,
        }
    }
}

impl DeepView for Token {
    type V = TokenV;

    open spec fn deep_view(&self) -> TokenV {
        self.view()
    }
}

/// How a word after the first one is classified.
pub open spec fn classify_word(w: Seq<char>) -> TokenV {
    if is_preposition(w) {
        TokenV::Preposition(w)
    } else if is_direction(w) {
        TokenV::Direction(w)
    } else {
        TokenV::Object(w)
    }
}

/// How the first word is classified: a direction stands for an implicit
/// movement verb, anything else is taken as a verb.
pub open spec fn first_token(w: Seq<char>) -> TokenV {
    if is_direction(w) {
        TokenV::Direction(w)
    } else {
        TokenV::Verb(w)
    }
}

/// The token stream for a non-empty word list ends in an end-of-input marker;
/// an empty word list has no tokens at all.
pub open spec fn tokens_of(ws: Seq<Seq<char>>) -> Seq<TokenV> {
    if ws.len() == 0 {
        Seq::empty()
    } else {
        seq![first_token(ws[0])] + ws.drop_first().map_values(|w: Seq<char>| classify_word(w))
            + seq![TokenV::Eof]
    }
}

/// `acc` extended by every word of `os`, each preceded by one space.
pub open spec fn join_from(acc: Seq<char>, os: Seq<Seq<char>>) -> Seq<char>
    decreases os.len(),
{
    if os.len() == 0 {
        acc
    } else {
        join_from(acc + " "@ + os[0], os.drop_first())
    }
}

/// The words of `ws` joined by single spaces.
pub open spec fn space_join(ws: Seq<Seq<char>>) -> Seq<char>
    recommends
        ws.len() > 0,
{
    join_from(ws[0], ws.drop_first())
}

/// Assembly state after the verb: an object word opens the object phrase,
/// end of input yields a command with a verb alone.
pub open spec fn parse_verb_spec(toks: Seq<TokenV>, verb: Seq<char>) -> Option<CommandV>
    decreases toks.len(),
{
    if toks.len() == 0 {
        None
    } else {
        match toks[0] {
            TokenV::Object(w) => parse_obj_spec(toks.drop_first(), verb, w),
            TokenV::Eof => Some(
                CommandV { verb: Some(verb), obj: None, prep: None, obj_prep: None },
            ),
            _ => None,
        }
    }
}

/// Assembly state inside the object phrase: object words concatenate, a
/// preposition switches to the secondary phrase, end of input terminates.
pub open spec fn parse_obj_spec(toks: Seq<TokenV>, verb: Seq<char>, obj: Seq<char>) -> Option<
    CommandV,
>
    decreases toks.len(),
{
    if toks.len() == 0 {
        None
    } else {
        match toks[0] {
            TokenV::Preposition(p) => parse_prep_spec(toks.drop_first(), verb, obj, p),
            TokenV::Object(w) => parse_obj_spec(toks.drop_first(), verb, obj + " "@ + w),
            TokenV::Eof => Some(
                CommandV { verb: Some(verb), obj: Some(obj), prep: None, obj_prep: None },
            ),
            _ => None,
        }
    }
}

/// Assembly state right after a preposition: only an object word may follow.
pub open spec fn parse_prep_spec(
    toks: Seq<TokenV>,
    verb: Seq<char>,
    obj: Seq<char>,
    prep: Seq<char>,
) -> Option<CommandV>
    decreases toks.len(),
{
    if toks.len() == 0 {
        None
    } else {
        match toks[0] {
            TokenV::Object(w) => parse_obj_prep_spec(toks.drop_first(), verb, obj, prep, w),
            _ => None,
        }
    }
}

/// Assembly state inside the secondary object phrase.
pub open spec fn parse_obj_prep_spec(
    toks: Seq<TokenV>,
    verb: Seq<char>,
    obj: Seq<char>,
    prep: Seq<char>,
    obj_prep: Seq<char>,
) -> Option<CommandV>
    decreases toks.len(),
{
    if toks.len() == 0 {
        None
    } else {
        match toks[0] {
            TokenV::Object(w) => parse_obj_prep_spec(
                toks.drop_first(),
                verb,
                obj,
                prep,
                obj_prep + " "@ + w,
            ),
            TokenV::Eof => Some(
                CommandV {
                    verb: Some(verb),
                    obj: Some(obj),
                    prep: Some(prep),
                    obj_prep: Some(obj_prep),
                },
            ),
            _ => None,
        }
    }
}

/// The whole assembly step: the first token must be a verb or a direction.
pub open spec fn parse_tokens_spec(toks: Seq<TokenV>) -> Option<CommandV> {
    if toks.len() == 0 {
        None
    } else {
        match toks[0] {
            TokenV::Verb(v) => parse_verb_spec(toks.drop_first(), v),
            TokenV::Direction(v) => parse_verb_spec(toks.drop_first(), v),
            _ => None,
        }
    }
}

/// The whole parsing pipeline, from the raw line to the structured command.
pub open spec fn parse_spec(s: Seq<char>) -> Option<CommandV> {
    parse_tokens_spec(tokens_of(clean_words(words_of(s))))
}

proof fn lemma_filter_all_dropped(ws: Seq<Seq<char>>)
    requires
        forall|i: int| 0 <= i < ws.len() ==> is_helper_word(#[trigger] ws[i]),
    ensures
        drop_helpers(ws) == Seq::<Seq<char>>::empty(),
    decreases ws.len(),
{
    reveal(Seq::filter);
    if ws.len() > 0 {
        lemma_filter_all_dropped(ws.drop_last());
    }
    assert(drop_helpers(ws) =~= Seq::<Seq<char>>::empty());
}

/// Law: a line whose words are all stop-words — in particular an empty or
/// all-whitespace line — does not parse, so [`Parser::parse`] answers with the
/// "didn't understand" reply and no command is ever dispatched for it.
pub proof fn lemma_stop_words_only_fails(s: Seq<char>)
    requires
        forall|i: int|
            0 <= i < words_of(s).len() ==> is_helper_word(lower_str(#[trigger] words_of(s)[i])),
    ensures
        parse_spec(s) is None,
{
    let ws = words_of(s);
    assert(forall|i: int|
        0 <= i < lower_words(ws).len() ==> is_helper_word(#[trigger] lower_words(ws)[i]));
    lemma_filter_all_dropped(lower_words(ws));
    assert(clean_words(ws).len() == 0);
}

proof fn lemma_obj_run(os: Seq<Seq<char>>, rest: Seq<TokenV>, verb: Seq<char>, acc: Seq<char>)
    requires
        forall|i: int| 0 <= i < os.len() ==> is_object_word(#[trigger] os[i]),
    ensures
        parse_obj_spec(os.map_values(|w: Seq<char>| classify_word(w)) + rest, verb, acc)
            == parse_obj_spec(rest, verb, join_from(acc, os)),
    decreases os.len(),
{
    let cl = |w: Seq<char>| classify_word(w);
    if os.len() == 0 {
        assert(os.map_values(cl) + rest =~= rest);
    } else {
        let toks = os.map_values(cl) + rest;
        assert(toks[0] == classify_word(os[0]));
        assert(toks.drop_first() =~= os.drop_first().map_values(cl) + rest);
        lemma_obj_run(os.drop_first(), rest, verb, acc + " "@ + os[0]);
    }
}

proof fn lemma_obj_prep_run(
    ps: Seq<Seq<char>>,
    rest: Seq<TokenV>,
    verb: Seq<char>,
    obj: Seq<char>,
    prep: Seq<char>,
    acc: Seq<char>,
)
    requires
        forall|i: int| 0 <= i < ps.len() ==> is_object_word(#[trigger] ps[i]),
    ensures
        parse_obj_prep_spec(ps.map_values(|w: Seq<char>| classify_word(w)) + rest, verb, obj, prep, acc)
            == parse_obj_prep_spec(rest, verb, obj, prep, join_from(acc, ps)),
    decreases ps.len(),
{
    let cl = |w: Seq<char>| classify_word(w);
    if ps.len() == 0 {
        assert(ps.map_values(cl) + rest =~= rest);
    } else {
        let toks = ps.map_values(cl) + rest;
        assert(toks[0] == classify_word(ps[0]));
        assert(toks.drop_first() =~= ps.drop_first().map_values(cl) + rest);
        lemma_obj_prep_run(ps.drop_first(), rest, verb, obj, prep, acc + " "@ + ps[0]);
    }
}

/// Law: a well-formed `<verb> <object words> <preposition> <object words>`
/// word list assembles into a command whose object phrases are exactly the
/// space-joined words on each side of the preposition.
///
/// The word list here is the normalized one (lowercased, stop-words already
/// dropped); [`Parser::parse`] reaches this token stream through
/// [`parse_spec`] for any raw line that normalizes to these words.
pub proof fn lemma_phrase_with_preposition(
    verb: Seq<char>,
    os: Seq<Seq<char>>,
    prep: Seq<char>,
    ps: Seq<Seq<char>>,
)
    requires
        0 < os.len(),
        0 < ps.len(),
        is_preposition(prep),
        forall|i: int| 0 <= i < os.len() ==> is_object_word(#[trigger] os[i]),
        forall|i: int| 0 <= i < ps.len() ==> is_object_word(#[trigger] ps[i]),
    ensures
        parse_tokens_spec(tokens_of(seq![verb] + os + seq![prep] + ps)) == Some(
            CommandV {
                verb: Some(verb),
                obj: Some(space_join(os)),
                prep: Some(prep),
                obj_prep: Some(space_join(ps)),
            },
        ),
{
    let cl = |w: Seq<char>| classify_word(w);
    let ws = seq![verb] + os + seq![prep] + ps;
    assert(ws[0] == verb);
    assert(ws.drop_first() =~= os + seq![prep] + ps);
    let toks = tokens_of(ws);
    let middle = ws.drop_first().map_values(cl);
    assert(middle =~= os.map_values(cl) + seq![classify_word(prep)] + ps.map_values(cl));
    assert(classify_word(prep) == TokenV::Preposition(prep));

    // The first token is the verb (or an implicit movement verb); either way
    // the machine proceeds with `verb` as the verb phrase.
    assert(toks[0] == first_token(verb));
    let after_verb = middle + seq![TokenV::Eof];
    assert(toks.drop_first() =~= after_verb);

    // The first object word opens the primary phrase.
    assert(after_verb[0] == classify_word(os[0]));
    assert(classify_word(os[0]) == TokenV::Object(os[0]));
    let rest2 = seq![TokenV::Preposition(prep)] + ps.map_values(cl) + seq![TokenV::Eof];
    assert(after_verb.drop_first() =~= os.drop_first().map_values(cl) + rest2);
    lemma_obj_run(os.drop_first(), rest2, verb, os[0]);
    assert(parse_verb_spec(after_verb, verb) == parse_obj_spec(rest2, verb, space_join(os)));

    // The preposition switches to the secondary phrase.
    assert(rest2[0] == TokenV::Preposition(prep));
    let rest3 = ps.map_values(cl) + seq![TokenV::Eof];
    assert(rest2.drop_first() =~= rest3);

    // The first secondary object word opens it, the rest accumulate, and the
    // end-of-input marker closes the command.
    assert(rest3[0] == classify_word(ps[0]));
    assert(classify_word(ps[0]) == TokenV::Object(ps[0]));
    let rest4: Seq<TokenV> = seq![TokenV::Eof];
    assert(rest3.drop_first() =~= ps.drop_first().map_values(cl) + rest4);
    lemma_obj_prep_run(ps.drop_first(), rest4, verb, space_join(os), prep, ps[0]);
    assert(parse_obj_prep_spec(rest4, verb, space_join(os), prep, space_join(ps)) == Some(
        CommandV {
            verb: Some(verb),
            obj: Some(space_join(os)),
            prep: Some(prep),
            obj_prep: Some(space_join(ps)),
        },
    ));
}

/// The phrase parser. Commands are either a bare direction, or a phrase of
/// the form `<verb> <object>` or `<verb> <object> <preposition> <object>`.
pub struct Parser;

impl Parser {
    /// Parses one raw input line into a [`Command`], or fails with the
    /// "didn't understand" reply without touching any state.
    pub fn parse(input: &str) -> (r: Result<Command, &'static str>)
        ensures
            match r {
                Ok(cmd) => parse_spec(input@) == Some(cmd@),
                Err(e) => parse_spec(input@) is None && e@ == "I didn't get that, come again?"@,
            },
    {
        let words = Parser::clean(input);
        let tokens = Parser::tokenize(words);
        match Parser::parse_tokens(tokens) {
            Some(cmd) => Ok(cmd),
            None => Err("I didn't get that, come again?"),
        }
    }

    /// Splits the line on whitespace, lowercases every word and drops the
    /// stop-words.
    pub fn clean(input: &str) -> (r: Vec<String>)
        ensures
            r.deep_view() == clean_words(words_of(input@)),
    {
        broadcast use vstd::seq_lib::group_filter_ensures;

        let words = split_words(input);
        let n = words.len();
        let mut out: Vec<String> = Vec::new();
        let mut k: usize = 0;
        while k < n
            invariant
                n == words@.len(),
                k <= n,
                out.deep_view() == clean_words(words.deep_view().take(k as int)),
            decreases n - k,
        {
            let low = to_lower(words[k].as_str());
            proof {
                reveal(Seq::filter);
                assert(words.deep_view().take(k + 1).drop_last() =~= words.deep_view().take(
                    k as int,
                ));
                assert(lower_words(words.deep_view().take(k + 1)) =~= lower_words(
                    words.deep_view().take(k as int),
                ).push(low@));
                assert(lower_words(words.deep_view().take(k + 1)).drop_last() == lower_words(
                    words.deep_view().take(k as int),
                ));
                assert(lower_words(words.deep_view().take(k + 1)).last() == low@);
            }
            if !word_is_helper(low.as_str()) {
                let ghost before = out.deep_view();
                out.push(low);
                proof {
                    assert(out.deep_view() =~= before.push(low@));
                    assert(clean_words(words.deep_view().take(k + 1)) == clean_words(
                        words.deep_view().take(k as int),
                    ).push(low@));
                }
            } else {
                proof {
                    assert(clean_words(words.deep_view().take(k + 1)) == clean_words(
                        words.deep_view().take(k as int),
                    ));
                }
            }
            k += 1;
        }
        proof {
            assert(words.deep_view().take(n as int) =~= words.deep_view());
        }
        out
    }

    /// Classifies the normalized words: the first is a verb or a direction,
    /// the rest are prepositions, directions or object words; an end-of-input
    /// marker closes a non-empty stream.
    pub fn tokenize(words: Vec<String>) -> (r: Vec<Token>)
        ensures
            r.deep_view() == tokens_of(words.deep_view()),
    {
        let mut tokens: Vec<Token> = Vec::new();

        if words.is_empty() {
            proof {
                assert(tokens.deep_view() =~= tokens_of(words.deep_view()));
            }
            return tokens;
        }
        let n = words.len();
        let first_word = &words[0];
        if word_is_direction(first_word.as_str()) {
            tokens.push(Token::Direction { value: first_word.clone() });
        } else {
            tokens.push(Token::Verb { value: first_word.clone() });
        }
        let ghost middle = words.deep_view().drop_first().map_values(
            |w: Seq<char>| classify_word(w),
        );
        let mut k: usize = 1;
        while k < n
            invariant
                n == words@.len(),
                1 <= k <= n,
                middle == words.deep_view().drop_first().map_values(
                    |w: Seq<char>| classify_word(w),
                ),
                tokens.deep_view() =~= seq![first_token(words.deep_view()[0])] + middle.take(
                    k - 1,
                ),
            decreases n - k,
        {
            let word = &words[k];
            let tok: Token = if word_is_preposition(word.as_str()) {
                Token::Preposition { value: word.clone() }
            } else if word_is_direction(word.as_str()) {
                Token::Direction { value: word.clone() }
            } else {
                Token::Object { value: word.clone() }
            };
            let ghost before = tokens.deep_view();
            tokens.push(tok);
            proof {
                assert(middle[k - 1] == classify_word(words.deep_view()[k as int]));
                assert(middle.take(k as int) =~= middle.take(k - 1).push(middle[k - 1]));
                assert(tokens.deep_view() =~= before.push(tok@));
            }
            k += 1;
        }
        let ghost before = tokens.deep_view();
        tokens.push(Token::Eof);
        proof {
            assert(middle.take(n - 1) =~= middle);
            assert(tokens.deep_view() =~= before.push(TokenV::Eof));
            assert(tokens.deep_view() =~= tokens_of(words.deep_view()));
        }
        tokens
    }

    /// Runs the assembly state machine over a classified token stream.
    pub fn parse_tokens(tokens: Vec<Token>) -> (r: Option<Command>)
        ensures
            match r {
                Some(cmd) => parse_tokens_spec(tokens.deep_view()) == Some(cmd@),
                None => parse_tokens_spec(tokens.deep_view()) is None,
            },
    {
        if tokens.is_empty() {
            return None;
        }
        let verb: String = match &tokens[0] {
            Token::Verb { value } => value.clone(),
            Token::Direction { value } => value.clone(),
            _ => {
                return None;
            },
        };
        proof {
            assert(tokens.deep_view().skip(1) =~= tokens.deep_view().drop_first());
        }
        Parser::parse_verb(&tokens, 1, verb)
    }

    /// Parses the remaining tokens when the previous token was the verb.
    fn parse_verb(tokens: &Vec<Token>, i: usize, verb: String) -> (r: Option<Command>)
        requires
            i <= tokens@.len(),
        ensures
            match r {
                Some(cmd) => parse_verb_spec(tokens.deep_view().skip(i as int), verb@) == Some(
                    cmd@,
                ),
                None => parse_verb_spec(tokens.deep_view().skip(i as int), verb@) is None,
            },
        decreases tokens@.len() - i,
    {
        if i >= tokens.len() {
            return None;
        }
        proof {
            assert(tokens.deep_view().skip(i as int).drop_first() =~= tokens.deep_view().skip(
                i + 1,
            ));
            assert(tokens.deep_view().skip(i as int)[0] == tokens.deep_view()[i as int]);
        }
        match &tokens[i] {
            Token::Object { value } => Parser::parse_obj(tokens, i + 1, verb, value.clone()),
            Token::Eof => Some(Command { verb: Some(verb), obj: None, prep: None, obj_prep: None }),
            _ => None,
        }
    }

    /// Parses the remaining tokens while inside the primary object phrase.
    fn parse_obj(tokens: &Vec<Token>, i: usize, verb: String, obj: String) -> (r: Option<Command>)
        requires
            i <= tokens@.len(),
        ensures
            match r {
                Some(cmd) => parse_obj_spec(tokens.deep_view().skip(i as int), verb@, obj@)
                    == Some(cmd@),
                None => parse_obj_spec(tokens.deep_view().skip(i as int), verb@, obj@) is None,
            },
        decreases tokens@.len() - i,
    {
        if i >= tokens.len() {
            return None;
        }
        proof {
            assert(tokens.deep_view().skip(i as int).drop_first() =~= tokens.deep_view().skip(
                i + 1,
            ));
            assert(tokens.deep_view().skip(i as int)[0] == tokens.deep_view()[i as int]);
        }
        match &tokens[i] {
            Token::Preposition { value } => Parser::parse_prep(
                tokens,
                i + 1,
                verb,
                obj,
                value.clone(),
            ),
            Token::Object { value } => {
                let grown = obj.concat(" ").concat(value.as_str());
                Parser::parse_obj(tokens, i + 1, verb, grown)
            },
            Token::Eof => Some(
                Command { verb: Some(verb), obj: Some(obj), prep: None, obj_prep: None },
            ),
            _ => None,
        }
    }

    /// Parses the remaining tokens when the previous token was a preposition.
    fn parse_prep(tokens: &Vec<Token>, i: usize, verb: String, obj: String, prep: String) -> (r:
        Option<Command>)
        requires
            i <= tokens@.len(),
        ensures
            match r {
                Some(cmd) => parse_prep_spec(tokens.deep_view().skip(i as int), verb@, obj@, prep@)
                    == Some(cmd@),
                None => parse_prep_spec(tokens.deep_view().skip(i as int), verb@, obj@, prep@)
                    is None,
            },
        decreases tokens@.len() - i,
    {
        if i >= tokens.len() {
            return None;
        }
        proof {
            assert(tokens.deep_view().skip(i as int).drop_first() =~= tokens.deep_view().skip(
                i + 1,
            ));
            assert(tokens.deep_view().skip(i as int)[0] == tokens.deep_view()[i as int]);
        }
        match &tokens[i] {
            Token::Object { value } => Parser::parse_obj_prep(
                tokens,
                i + 1,
                verb,
                obj,
                prep,
                value.clone(),
            ),
            _ => None,
        }
    }

    /// Parses the remaining tokens while inside the secondary object phrase.
    fn parse_obj_prep(
        tokens: &Vec<Token>,
        i: usize,
        verb: String,
        obj: String,
        prep: String,
        obj_prep: String,
    ) -> (r: Option<Command>)
        requires
            i <= tokens@.len(),
        ensures
            match r {
                Some(cmd) => parse_obj_prep_spec(
                    tokens.deep_view().skip(i as int),
                    verb@,
                    obj@,
                    prep@,
                    obj_prep@,
                ) == Some(cmd@),
                None => parse_obj_prep_spec(
                    tokens.deep_view().skip(i as int),
                    verb@,
                    obj@,
                    prep@,
                    obj_prep@,
                ) is None,
            },
        decreases tokens@.len() - i,
    {
        if i >= tokens.len() {
            return None;
        }
        proof {
            assert(tokens.deep_view().skip(i as int).drop_first() =~= tokens.deep_view().skip(
                i + 1,
            ));
            assert(tokens.deep_view().skip(i as int)[0] == tokens.deep_view()[i as int]);
        }
        match &tokens[i] {
            Token::Object { value } => {
                let grown = obj_prep.concat(" ").concat(value.as_str());
                Parser::parse_obj_prep(tokens, i + 1, verb, obj, prep, grown)
            },
            Token::Eof => Some(
                Command {
                    verb: Some(verb),
                    obj: Some(obj),
                    prep: Some(prep),
                    obj_prep: Some(obj_prep),
                },
            ),
            _ => None,
        }
    }
}

} // verus!
