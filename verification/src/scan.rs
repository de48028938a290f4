use vstd::prelude::*;

verus! {

// ---------------------------------------------------------------------------
// Tokens
// ---------------------------------------------------------------------------

/// The mathematical model of a lexical token.
pub enum TokenV {
    LBrace,
    RBrace,
    Equals,
    Word(Seq<char>),
    Str(Seq<char>),
}

/// One lexical token of the manifest text format.
#[derive(Debug, Clone, PartialEq)]
pub enum Token {
    /// `{`
    LBrace,
    /// `}`
    RBrace,
    /// `=`
    Equals,
    /// A bare word: a maximal run of characters that are neither blank nor
    /// delimiters.
    Word(String),
    /// A quoted value: the characters between two double quotes, taken
    /// verbatim (the format has no escape sequences).
    Str(String),
}

impl View for Token {
    type V = TokenV;

    open spec fn view(&self) -> TokenV {
        match self {
            Token::LBrace => TokenV::LBrace,
            Token::RBrace => TokenV::RBrace,
            Token::Equals => TokenV::Equals,
            Token::Word(w) => TokenV::Word(w@),
            Token::Str(s) => TokenV::Str(s@),
        }
    }
}

/// The models of a sequence of tokens.
pub open spec fn tokens_view(v: Seq<Token>) -> Seq<TokenV> {
    Seq::new(v.len(), |i: int| v[i]@)
}

// ---------------------------------------------------------------------------
// Character classes
// ---------------------------------------------------------------------------

/// Blank characters between tokens.  A backslash outside quotes only serves
/// to continue a line and is treated as blank.
pub open spec fn is_ws_char(c: char) -> bool {
    c == ' ' || c == '\t' || c == '\n' || c == '\r' || c == '\\'
}

/// The four delimiter characters of the format.
pub open spec fn is_special_char(c: char) -> bool {
    c == '{' || c == '}' || c == '=' || c == '"'
}

/// A character that may stand in a bare word.
pub open spec fn is_word_char(c: char) -> bool {
    !is_ws_char(c) && !is_special_char(c)
}

/// Every character of `s` may stand in a bare word.
pub open spec fn all_word_chars(s: Seq<char>) -> bool {
    forall|i: int| 0 <= i < s.len() ==> is_word_char(#[trigger] s[i])
}

/// No character of `s` is a double quote.
pub open spec fn no_quote_char(s: Seq<char>) -> bool {
    forall|i: int| 0 <= i < s.len() ==> #[trigger] s[i] != '"'
}

// ---------------------------------------------------------------------------
// The scanner as a character-by-character state machine
// ---------------------------------------------------------------------------

/// What the scanner is in the middle of.
pub enum ScanMode {
    Normal,
    InWord(Seq<char>),
    InStr(Seq<char>),
}

/// Scanner state: the tokens recognized so far and the current partial
/// token.
pub struct ScanState {
    pub toks: Seq<TokenV>,
    pub mode: ScanMode,
}

pub open spec fn scan_init() -> ScanState {
    ScanState { toks: Seq::empty(), mode: ScanMode::Normal }
}

/// A step taken with no partial word in progress (also right after a word
/// was closed).
pub open spec fn scan_step_normal(toks: Seq<TokenV>, c: char) -> ScanState {
    if is_ws_char(c) {
        ScanState { toks, mode: ScanMode::Normal }
    } else if c == '{' {
        ScanState { toks: toks.push(TokenV::LBrace), mode: ScanMode::Normal }
    } else if c == '}' {
        ScanState { toks: toks.push(TokenV::RBrace), mode: ScanMode::Normal }
    } else if c == '=' {
        ScanState { toks: toks.push(TokenV::Equals), mode: ScanMode::Normal }
    } else if c == '"' {
        ScanState { toks, mode: ScanMode::InStr(Seq::empty()) }
    } else {
        ScanState { toks, mode: ScanMode::InWord(seq![c]) }
    }
}

/// How one character advances the scanner.
pub open spec fn scan_step(st: ScanState, c: char) -> ScanState {
    match st.mode {
        ScanMode::Normal => scan_step_normal(st.toks, c),
        ScanMode::InWord(w) => if is_word_char(c) {
            ScanState { toks: st.toks, mode: ScanMode::InWord(w.push(c)) }
        } else {
            scan_step_normal(st.toks.push(TokenV::Word(w)), c)
        },
        ScanMode::InStr(s) => if c == '"' {
            ScanState { toks: st.toks.push(TokenV::Str(s)), mode: ScanMode::Normal }
        } else {
            ScanState { toks: st.toks, mode: ScanMode::InStr(s.push(c)) }
        },
    }
}

/// Runs the scanner over `s` starting from state `st`.
pub open spec fn scan_seq(st: ScanState, s: Seq<char>) -> ScanState
    decreases s.len(),
{
    if s.len() == 0 {
        st
    } else {
        scan_step(scan_seq(st, s.drop_last()), s.last())
    }
}

/// The token sequence of a whole text: a trailing word is closed; an
/// unterminated quoted value rejects the text.
pub open spec fn spec_scan(s: Seq<char>) -> Option<Seq<TokenV>> {
    let end = scan_seq(scan_init(), s);
    match end.mode {
        ScanMode::Normal => Some(end.toks),
        ScanMode::InWord(w) => Some(end.toks.push(TokenV::Word(w))),
        ScanMode::InStr(_) => None,
    }
}

// ---------------------------------------------------------------------------
// Composition lemmas
// ---------------------------------------------------------------------------

/// Scanning distributes over concatenation.
pub proof fn lemma_scan_seq_app(st: ScanState, a: Seq<char>, b: Seq<char>)
    ensures
        scan_seq(st, a + b) == scan_seq(scan_seq(st, a), b),
    decreases b.len(),
{
    if b.len() == 0 {
        assert(a + b =~= a);
    } else {
        lemma_scan_seq_app(st, a, b.drop_last());
        assert((a + b).drop_last() =~= a + b.drop_last());
        assert((a + b).last() == b.last());
    }
}

/// A run of word characters extends the word in progress.
pub proof fn lemma_scan_word_chars(toks: Seq<TokenV>, p: Seq<char>, w: Seq<char>)
    requires
        all_word_chars(w),
    ensures
        scan_seq(ScanState { toks, mode: ScanMode::InWord(p) }, w) == (ScanState {
            toks,
            mode: ScanMode::InWord(p + w),
        }),
    decreases w.len(),
{
    if w.len() == 0 {
        assert(p + w =~= p);
    } else {
        assert(all_word_chars(w.drop_last())) by {
            assert(forall|i: int|
                0 <= i < w.drop_last().len() ==> #[trigger] w.drop_last()[i] == w[i]);
        }
        lemma_scan_word_chars(toks, p, w.drop_last());
        assert(is_word_char(w.last()));
        assert((p + w.drop_last()).push(w.last()) =~= p + w);
    }
}

/// From normal mode, a nonempty run of word characters enters word mode
/// holding exactly those characters.
pub proof fn lemma_scan_word(toks: Seq<TokenV>, w: Seq<char>)
    requires
        w.len() >= 1,
        all_word_chars(w),
    ensures
        scan_seq(ScanState { toks, mode: ScanMode::Normal }, w) == (ScanState {
            toks,
            mode: ScanMode::InWord(w),
        }),
{
    let st = ScanState { toks, mode: ScanMode::Normal };
    let first = seq![w[0]];
    let rest = w.skip(1);
    assert(w =~= first + rest);
    lemma_scan_seq_app(st, first, rest);
    assert(first.drop_last() =~= Seq::<char>::empty());
    assert(scan_seq(st, Seq::<char>::empty()) == st);
    assert(first.last() == w[0]);
    assert(scan_seq(st, first) == scan_step(scan_seq(st, first.drop_last()), first.last()));
    assert(scan_seq(st, first) == scan_step(st, w[0]));
    assert(is_word_char(w[0]));
    assert(scan_step(st, w[0]) == (ScanState { toks, mode: ScanMode::InWord(seq![w[0]]) }));
    assert(all_word_chars(rest)) by {
        assert(forall|i: int| 0 <= i < rest.len() ==> #[trigger] rest[i] == w[i + 1]);
    }
    lemma_scan_word_chars(toks, first, rest);
    assert(first + rest =~= w);
}

/// Scanning a single character is one scanner step.
pub proof fn lemma_scan_one(st: ScanState, c: char)
    ensures
        scan_seq(st, seq![c]) == scan_step(st, c),
{
    assert(seq![c].drop_last() =~= Seq::<char>::empty());
    assert(scan_seq(st, Seq::<char>::empty()) == st);
    assert(seq![c].last() == c);
    assert(scan_seq(st, seq![c]) == scan_step(scan_seq(st, seq![c].drop_last()), seq![c].last()));
}

/// A word followed by any non-word character: the word token is emitted and
/// the separator is handled in normal mode.
pub proof fn lemma_scan_word_sep(toks: Seq<TokenV>, w: Seq<char>, c: char)
    requires
        w.len() >= 1,
        all_word_chars(w),
        !is_word_char(c),
    ensures
        scan_seq(ScanState { toks, mode: ScanMode::Normal }, w + seq![c]) == scan_step_normal(
            toks.push(TokenV::Word(w)),
            c,
        ),
{
    let st = ScanState { toks, mode: ScanMode::Normal };
    lemma_scan_seq_app(st, w, seq![c]);
    lemma_scan_word(toks, w);
    lemma_scan_one(ScanState { toks, mode: ScanMode::InWord(w) }, c);
}

/// A run of non-quote characters extends the quoted value in progress.
pub proof fn lemma_scan_str_chars(toks: Seq<TokenV>, p: Seq<char>, t: Seq<char>)
    requires
        no_quote_char(t),
    ensures
        scan_seq(ScanState { toks, mode: ScanMode::InStr(p) }, t) == (ScanState {
            toks,
            mode: ScanMode::InStr(p + t),
        }),
    decreases t.len(),
{
    if t.len() == 0 {
        assert(p + t =~= p);
    } else {
        assert(no_quote_char(t.drop_last())) by {
            assert(forall|i: int|
                0 <= i < t.drop_last().len() ==> #[trigger] t.drop_last()[i] == t[i]);
        }
        lemma_scan_str_chars(toks, p, t.drop_last());
        assert(t.last() != '"');
        assert((p + t.drop_last()).push(t.last()) =~= p + t);
    }
}

/// From normal mode, a complete quoted value `"t"` emits one `Str` token
/// and returns to normal mode.
pub proof fn lemma_scan_quoted(toks: Seq<TokenV>, t: Seq<char>)
    requires
        no_quote_char(t),
    ensures
        scan_seq(ScanState { toks, mode: ScanMode::Normal }, seq!['"'] + t + seq!['"']) == (
        ScanState { toks: toks.push(TokenV::Str(t)), mode: ScanMode::Normal }),
{
    let st = ScanState { toks, mode: ScanMode::Normal };
    let open = seq!['"'];
    assert(seq!['"'] + t + seq!['"'] =~= (open + t) + seq!['"']);
    lemma_scan_seq_app(st, open + t, seq!['"']);
    lemma_scan_seq_app(st, open, t);
    assert(open.drop_last() =~= Seq::<char>::empty());
    assert(scan_seq(st, Seq::<char>::empty()) == st);
    assert(open.last() == '"');
    assert(scan_seq(st, open) == scan_step(scan_seq(st, open.drop_last()), open.last()));
    assert(scan_step(st, '"') == (ScanState { toks, mode: ScanMode::InStr(Seq::empty()) }));
    lemma_scan_str_chars(toks, Seq::empty(), t);
    assert(Seq::empty() + t =~= t);
    let closing = seq!['"'];
    let stq = ScanState { toks, mode: ScanMode::InStr(t) };
    assert(closing.drop_last() =~= Seq::<char>::empty());
    assert(scan_seq(stq, Seq::<char>::empty()) == stq);
    assert(closing.last() == '"');
    assert(scan_seq(stq, closing) == scan_step(scan_seq(stq, closing.drop_last()), closing.last()));
    assert(scan_seq(stq, closing) == scan_step(stq, '"'));
}

// ---------------------------------------------------------------------------
// The executable scanner
// ---------------------------------------------------------------------------

/// What the executable scanner is in the middle of: partial tokens are kept
/// as start offsets into the input, since their characters are contiguous.
enum ScanAcc {
    Normal,
    InWord { start: usize },
    InStr { start: usize },
}

/// Tokenizes a text.  Fails exactly on an unterminated quoted value.
pub fn scan(s: &str) -> (r: Option<Vec<Token>>)
    ensures
        (r is Some) == (spec_scan(s@) is Some),
        r matches Some(v) ==> spec_scan(s@) == Some(tokens_view(v@)),
{
    let n = s.unicode_len();
    let mut toks: Vec<Token> = Vec::new();
    let mut acc = ScanAcc::Normal;
    let mut i: usize = 0;
    while i < n
        invariant
            i <= n,
            n == s@.len(),
            tokens_view(toks@) == scan_seq(scan_init(), s@.take(i as int)).toks,
            match acc {
                ScanAcc::Normal => scan_seq(scan_init(), s@.take(i as int)).mode is Normal,
                ScanAcc::InWord { start } => start <= i && scan_seq(
                    scan_init(),
                    s@.take(i as int),
                ).mode == ScanMode::InWord(s@.subrange(start as int, i as int)),
                ScanAcc::InStr { start } => start <= i && scan_seq(
                    scan_init(),
                    s@.take(i as int),
                ).mode == ScanMode::InStr(s@.subrange(start as int, i as int)),
            },
        decreases n - i,
    {
        proof {
            assert(s@.take(i as int + 1).drop_last() =~= s@.take(i as int));
            assert(s@.take(i as int + 1).last() == s@[i as int]);
            assert(scan_seq(scan_init(), s@.take(i as int + 1)) == scan_step(
                scan_seq(scan_init(), s@.take(i as int)),
                s@[i as int],
            ));
        }
        let c = s.get_char(i);
        let is_ws = c == ' ' || c == '\t' || c == '\n' || c == '\r' || c == '\\';
        let is_special = c == '{' || c == '}' || c == '=' || c == '"';
        proof {
            assert(is_ws == is_ws_char(s@[i as int]));
            assert(is_special == is_special_char(s@[i as int]));
        }
        match acc {
            ScanAcc::Normal => {
                if is_ws {
                    proof {
                        assert(scan_seq(scan_init(), s@.take(i as int + 1)).mode is Normal);
                    }
                } else if c == '{' {
                    toks.push(Token::LBrace);
                    proof {
                        assert(scan_seq(scan_init(), s@.take(i as int + 1)).mode is Normal);
                    }
                } else if c == '}' {
                    toks.push(Token::RBrace);
                    proof {
                        assert(scan_seq(scan_init(), s@.take(i as int + 1)).mode is Normal);
                    }
                } else if c == '=' {
                    toks.push(Token::Equals);
                    proof {
                        assert(scan_seq(scan_init(), s@.take(i as int + 1)).mode is Normal);
                    }
                } else if c == '"' {
                    acc = ScanAcc::InStr { start: i + 1 };
                    proof {
                        assert(s@.subrange(i as int + 1, i as int + 1) =~= Seq::<char>::empty());
                        assert(scan_seq(scan_init(), s@.take(i as int + 1)).mode
                            == ScanMode::InStr(s@.subrange(i as int + 1, i as int + 1)));
                    }
                } else {
                    acc = ScanAcc::InWord { start: i };
                    proof {
                        assert(s@.subrange(i as int, i as int + 1) =~= seq![s@[i as int]]);
                        assert(scan_seq(scan_init(), s@.take(i as int + 1)).mode
                            == ScanMode::InWord(s@.subrange(i as int, i as int + 1)));
                    }
                }
            },
            ScanAcc::InWord { start } => {
                if !is_ws && !is_special {
                    proof {
                        assert(s@.subrange(start as int, i as int).push(s@[i as int]) =~= s@
                            .subrange(start as int, i as int + 1));
                    }
                } else {
                    let w = s.substring_char(start, i).to_owned();
                    toks.push(Token::Word(w));
                    if is_ws {
                        acc = ScanAcc::Normal;
                    } else if c == '{' {
                        toks.push(Token::LBrace);
                        acc = ScanAcc::Normal;
                    } else if c == '}' {
                        toks.push(Token::RBrace);
                        acc = ScanAcc::Normal;
                    } else if c == '=' {
                        toks.push(Token::Equals);
                        acc = ScanAcc::Normal;
                    } else {
                        acc = ScanAcc::InStr { start: i + 1 };
                        proof {
                            assert(s@.subrange(i as int + 1, i as int + 1) =~= Seq::<
                                char,
                            >::empty());
                        }
                    }
                }
            },
            ScanAcc::InStr { start } => {
                if c == '"' {
                    let t = s.substring_char(start, i).to_owned();
                    toks.push(Token::Str(t));
                    acc = ScanAcc::Normal;
                } else {
                    proof {
                        assert(s@.subrange(start as int, i as int).push(s@[i as int]) =~= s@
                            .subrange(start as int, i as int + 1));
                    }
                }
            },
        }
        i = i + 1;
        proof {
            assert(tokens_view(toks@) =~= scan_seq(scan_init(), s@.take(i as int)).toks);
        }
    }
    proof {
        assert(s@.take(n as int) =~= s@);
    }
    match acc {
        ScanAcc::Normal => {
            proof {
                assert(tokens_view(toks@) =~= spec_scan(s@)->Some_0);
            }
            Some(toks)
        },
        ScanAcc::InWord { start } => {
            let w = s.substring_char(start, n).to_owned();
            toks.push(Token::Word(w));
            proof {
                assert(tokens_view(toks@) =~= spec_scan(s@)->Some_0);
            }
            Some(toks)
        },
        ScanAcc::InStr { .. } => None,
    }
}

} // verus!
